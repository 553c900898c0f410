//! DHCPv6 (RFC 8415, prefix delegation of RFC 3633): DUIDs, the message and option
//! codec, the identity-association options, and a server and client that allocate and
//! take addresses and delegated prefixes.
use vstd::prelude::*;
use vstd::string::*;
use vstd::utf8::encode_utf8;
use crate::net::{Ipv6Address, MacAddress};
use crate::wire::{u16_bytes, u24_bytes, u32_bytes, be16_at, be24_at, be32_at, push_u16, push_u32, push_all,
    read_u16, read_u32, copy_range, to_vec};
use crate::table::BytesTable;
use crate::text::{dec_chars, decimal, join3, lossy_chars, owned};

verus! {

pub const DHCPV6_CLIENT_PORT: u16 = 546;
pub const DHCPV6_SERVER_PORT: u16 = 547;
pub const DHCPV6_HEADER_LEN: usize = 4;

pub const DHCPV6_MSG_SOLICIT: u8 = 1;
pub const DHCPV6_MSG_ADVERTISE: u8 = 2;
pub const DHCPV6_MSG_REQUEST: u8 = 3;
pub const DHCPV6_MSG_CONFIRM: u8 = 4;
pub const DHCPV6_MSG_RENEW: u8 = 5;
pub const DHCPV6_MSG_REBIND: u8 = 6;
pub const DHCPV6_MSG_REPLY: u8 = 7;
pub const DHCPV6_MSG_RELEASE: u8 = 8;
pub const DHCPV6_MSG_DECLINE: u8 = 9;
pub const DHCPV6_MSG_RECONFIGURE: u8 = 10;
pub const DHCPV6_MSG_INFO_REQUEST: u8 = 11;
pub const DHCPV6_MSG_RELAY_FORW: u8 = 12;
pub const DHCPV6_MSG_RELAY_REPL: u8 = 13;

pub const DHCPV6_OPT_CLIENTID: u16 = 1;
pub const DHCPV6_OPT_SERVERID: u16 = 2;
pub const DHCPV6_OPT_IA_NA: u16 = 3;
pub const DHCPV6_OPT_IA_TA: u16 = 4;
pub const DHCPV6_OPT_IAADDR: u16 = 5;
pub const DHCPV6_OPT_ORO: u16 = 6;
pub const DHCPV6_OPT_PREFERENCE: u16 = 7;
pub const DHCPV6_OPT_ELAPSED_TIME: u16 = 8;
pub const DHCPV6_OPT_RELAY_MSG: u16 = 9;
pub const DHCPV6_OPT_AUTH: u16 = 11;
pub const DHCPV6_OPT_SERVER_UNICAST: u16 = 12;
pub const DHCPV6_OPT_STATUS_CODE: u16 = 13;
pub const DHCPV6_OPT_RAPID_COMMIT: u16 = 14;
pub const DHCPV6_OPT_USER_CLASS: u16 = 15;
pub const DHCPV6_OPT_VENDOR_CLASS: u16 = 16;
pub const DHCPV6_OPT_VENDOR_OPTS: u16 = 17;
pub const DHCPV6_OPT_INTERFACE_ID: u16 = 18;
pub const DHCPV6_OPT_RECONF_MSG: u16 = 19;
pub const DHCPV6_OPT_RECONF_ACCEPT: u16 = 20;
pub const DHCPV6_OPT_SIP_SERVER_D: u16 = 21;
pub const DHCPV6_OPT_SIP_SERVER_A: u16 = 22;
pub const DHCPV6_OPT_DNS_SERVERS: u16 = 23;
pub const DHCPV6_OPT_DNSSL: u16 = 24;
pub const DHCPV6_OPT_IA_PD: u16 = 25;
pub const DHCPV6_OPT_IAPREFIX: u16 = 26;

pub const DHCPV6_STATUS_SUCCESS: u16 = 0;
pub const DHCPV6_STATUS_UNSPEC_FAIL: u16 = 1;
pub const DHCPV6_STATUS_NO_ADDRS_AVAIL: u16 = 2;
pub const DHCPV6_STATUS_NO_BINDING: u16 = 3;
pub const DHCPV6_STATUS_NOT_ON_LINK: u16 = 4;
pub const DHCPV6_STATUS_USE_MULTICAST: u16 = 5;
pub const DHCPV6_STATUS_NO_PREFIX_AVAIL: u16 = 6;

/// A DHCP unique identifier.
#[derive(Debug, Clone, PartialEq, Eq)]
pub enum Duid {
    Llt { hw_type: u16, time: u32, ll_addr: MacAddress },
    En { enterprise_num: u32, identifier: Vec<u8> },
    Ll { hw_type: u16, ll_addr: MacAddress },
    Uuid([u8; 16]),
    Raw(Vec<u8>),
}

/// The octets of a DUID: its type and fields (a raw DUID is its octets).
pub open spec fn duid_bytes(d: Duid) -> Seq<u8> {
    match d {
        Duid::Llt { hw_type, time, ll_addr } => u16_bytes(1) + u16_bytes(hw_type) + u32_bytes(time) + ll_addr.0@,
        Duid::En { enterprise_num, identifier } => u16_bytes(2) + u32_bytes(enterprise_num) + identifier@,
        Duid::Ll { hw_type, ll_addr } => u16_bytes(3) + u16_bytes(hw_type) + ll_addr.0@,
        Duid::Uuid(u) => u16_bytes(4) + u@,
        Duid::Raw(b) => b@,
    }
}

/// Whether `d` is what `s` reads as (for `s` of two octets or more): a link-layer-plus-time
/// DUID of exactly fourteen octets, an enterprise DUID of six or more, a link-layer DUID of
/// exactly ten, a UUID DUID of exactly eighteen; any other octets, including a DUID of a
/// known type with another length, read as a raw DUID.
pub open spec fn duid_read_as(s: Seq<u8>, d: Duid) -> bool {
    let t = be16_at(s, 0);
    if t == 1 && s.len() == 14 {
        d matches Duid::Llt { hw_type, time, ll_addr } && hw_type == be16_at(s, 2) && time == be32_at(s, 4)
            && ll_addr.0@ == s.subrange(8, 14)
    } else if t == 2 && s.len() >= 6 {
        d matches Duid::En { enterprise_num, identifier } && enterprise_num == be32_at(s, 2)
            && identifier@ == s.subrange(6, s.len() as int)
    } else if t == 3 && s.len() == 10 {
        d matches Duid::Ll { hw_type, ll_addr } && hw_type == be16_at(s, 2) && ll_addr.0@ == s.subrange(4, 10)
    } else if t == 4 && s.len() == 18 {
        d matches Duid::Uuid(u) && u@ == s.subrange(2, 18)
    } else {
        d matches Duid::Raw(b) && b@ == s
    }
}

fn mac_from(data: &[u8], at: usize) -> (r: MacAddress)
    requires
        at + 6 <= data@.len(),
    ensures
        r.0@ == data@.subrange(at as int, at + 6),
{
    let r = MacAddress([data[at], data[at + 1], data[at + 2], data[at + 3], data[at + 4], data[at + 5]]);
    assert(r.0@ =~= data@.subrange(at as int, at + 6));
    r
}

fn addr16_from(data: &[u8], at: usize) -> (r: [u8; 16])
    requires
        at + 16 <= data@.len(),
    ensures
        r@ == data@.subrange(at as int, at + 16),
{
    let mut r = [0u8; 16];
    let mut i: usize = 0;
    while i < 16
        invariant
            i <= 16,
            at + 16 <= data.len(),
            forall|j: int| 0 <= j < i ==> r@[j] == data@[at + j],
        decreases 16 - i,
    {
        r.set(i, data[at + i]);
        i = i + 1;
    }
    assert(r@ =~= data@.subrange(at as int, at + 16));
    r
}

impl Duid {
    pub fn new_ll(mac: MacAddress) -> (r: Self)
        ensures
            r matches Duid::Ll { hw_type, ll_addr } && hw_type == 1 && ll_addr == mac,
    {
        Duid::Ll { hw_type: 1, ll_addr: mac }
    }

    pub fn new_llt(mac: MacAddress, time: u32) -> (r: Self)
        ensures
            r matches Duid::Llt { hw_type, time: t, ll_addr } && hw_type == 1 && t == time && ll_addr == mac,
    {
        Duid::Llt { hw_type: 1, time, ll_addr: mac }
    }

    pub fn new_uuid(uuid: [u8; 16]) -> (r: Self)
        ensures
            r matches Duid::Uuid(u) && u == uuid,
    {
        Duid::Uuid(uuid)
    }

    pub fn serialize(&self) -> (r: Vec<u8>)
        ensures
            r@ == duid_bytes(*self),
    {
        let mut buf: Vec<u8> = Vec::new();
        match self {
            Duid::Llt { hw_type, time, ll_addr } => {
                push_u16(&mut buf, 1);
                push_u16(&mut buf, *hw_type);
                push_u32(&mut buf, *time);
                push_all(&mut buf, &ll_addr.0);
            },
            Duid::En { enterprise_num, identifier } => {
                push_u16(&mut buf, 2);
                push_u32(&mut buf, *enterprise_num);
                push_all(&mut buf, identifier.as_slice());
            },
            Duid::Ll { hw_type, ll_addr } => {
                push_u16(&mut buf, 3);
                push_u16(&mut buf, *hw_type);
                push_all(&mut buf, &ll_addr.0);
            },
            Duid::Uuid(uuid) => {
                push_u16(&mut buf, 4);
                push_all(&mut buf, uuid);
            },
            Duid::Raw(bytes) => {
                push_all(&mut buf, bytes.as_slice());
            },
        }
        assert(buf@ =~= duid_bytes(*self));
        buf
    }

    /// Reads a DUID; `None` for fewer than two octets (see `duid_read_as`).
    pub fn parse(data: &[u8]) -> (r: Option<Self>)
        ensures
            match r {
                None => data@.len() < 2,
                Some(d) => data@.len() >= 2 && duid_read_as(data@, d),
            },
    {
        if data.len() < 2 {
            return None;
        }
        let duid_type = read_u16(data, 0);
        if duid_type == 1 && data.len() == 14 {
            let hw_type = read_u16(data, 2);
            let time = read_u32(data, 4);
            Some(Duid::Llt { hw_type, time, ll_addr: mac_from(data, 8) })
        } else if duid_type == 2 && data.len() >= 6 {
            let enterprise_num = read_u32(data, 2);
            Some(Duid::En { enterprise_num, identifier: copy_range(data, 6, data.len()) })
        } else if duid_type == 3 && data.len() == 10 {
            let hw_type = read_u16(data, 2);
            Some(Duid::Ll { hw_type, ll_addr: mac_from(data, 4) })
        } else if duid_type == 4 && data.len() == 18 {
            Some(Duid::Uuid(addr16_from(data, 2)))
        } else {
            Some(Duid::Raw(to_vec(data)))
        }
    }
}

/// Every DUID but a raw one reads back from its own octets as itself.
pub proof fn lemma_duid_roundtrip(d: Duid)
    requires
        !(d is Raw),
    ensures
        duid_bytes(d).len() >= 2,
        duid_read_as(duid_bytes(d), d),
{
    let s = duid_bytes(d);
    match d {
        Duid::Llt { hw_type, time, ll_addr } => {
            crate::wire::lemma_u32_roundtrip(time);
            assert(s.subrange(4, 8) =~= u32_bytes(time));
            assert(be32_at(s, 4) == be32_at(u32_bytes(time), 0));
            assert(s.subrange(8, 14) =~= ll_addr.0@);
        },
        Duid::En { enterprise_num, identifier } => {
            crate::wire::lemma_u32_roundtrip(enterprise_num);
            assert(s.subrange(2, 6) =~= u32_bytes(enterprise_num));
            assert(be32_at(s, 2) == be32_at(u32_bytes(enterprise_num), 0));
            assert(s.subrange(6, s.len() as int) =~= identifier@);
        },
        Duid::Ll { hw_type, ll_addr } => {
            assert(s.subrange(4, 10) =~= ll_addr.0@);
        },
        Duid::Uuid(u) => {
            assert(s.subrange(2, 18) =~= u@);
        },
        Duid::Raw(_) => {},
    }
}

#[derive(Debug, Clone, Copy, PartialEq, Eq)]
pub struct IaAddressOption {
    pub address: Ipv6Address,
    pub preferred_lifetime: u32,
    pub valid_lifetime: u32,
}

#[derive(Debug, Clone, Copy, PartialEq, Eq)]
pub struct IaPrefixOption {
    pub preferred_lifetime: u32,
    pub valid_lifetime: u32,
    pub prefix_len: u8,
    pub prefix: Ipv6Address,
}

#[derive(Debug, Clone, PartialEq, Eq)]
pub struct IaNaOption {
    pub iaid: u32,
    pub t1: u32,
    pub t2: u32,
    pub addresses: Vec<IaAddressOption>,
}

#[derive(Debug, Clone, PartialEq, Eq)]
pub struct IaPdOption {
    pub iaid: u32,
    pub t1: u32,
    pub t2: u32,
    pub prefixes: Vec<IaPrefixOption>,
}

#[derive(Debug, Clone, PartialEq, Eq)]
pub struct Dhcpv6Option {
    pub code: u16,
    pub data: Vec<u8>,
}

impl View for Dhcpv6Option {
    type V = (u16, Seq<u8>);

    open spec fn view(&self) -> (u16, Seq<u8>) {
        (self.code, self.data@)
    }
}

#[derive(Debug, Clone, PartialEq, Eq)]
pub struct Dhcpv6Message {
    pub msg_type: u8,
    pub transaction_id: u32,
    pub options: Vec<Dhcpv6Option>,
}

/// The options of a message, each as its code and data.
pub open spec fn opts_view(options: Seq<Dhcpv6Option>) -> Seq<(u16, Seq<u8>)> {
    options.map_values(|o: Dhcpv6Option| o@)
}

#[derive(Debug, Clone, Copy, PartialEq, Eq, Structural)]
pub enum Dhcpv6Error {
    PacketTooShort(usize),
    InvalidLength,
}

impl Dhcpv6Error {
    /// The human-readable description of the error.
    pub open spec fn description(self) -> Seq<char> {
        match self {
            Dhcpv6Error::PacketTooShort(l) => "DHCPv6 message too short ("@ + dec_chars(l as nat)
                + " bytes)"@,
            Dhcpv6Error::InvalidLength => "Invalid DHCPv6 option length"@,
        }
    }

    /// Renders the error as text.
    pub fn to_string(&self) -> (r: String)
        ensures
            r@ == self.description(),
    {
        match self {
            Dhcpv6Error::PacketTooShort(l) => join3(
                "DHCPv6 message too short (",
                decimal(*l as u64).as_str(),
                " bytes)",
            ),
            Dhcpv6Error::InvalidLength => owned("Invalid DHCPv6 option length"),
        }
    }
}

/// The octets of one option: code, data length (to sixteen bits), data.
pub open spec fn option_bytes(o: (u16, Seq<u8>)) -> Seq<u8> {
    u16_bytes(o.0) + u16_bytes((o.1.len() % 0x1_0000) as u16) + o.1
}

/// The octets of a run of options.
pub open spec fn options_bytes(opts: Seq<(u16, Seq<u8>)>) -> Seq<u8>
    decreases opts.len(),
{
    if opts.len() == 0 {
        Seq::empty()
    } else {
        options_bytes(opts.drop_last()) + option_bytes(opts.last())
    }
}

/// The options read from `s`: each a code, a length and that many octets of data, until
/// fewer than four octets are left (which are ignored); `None` when a length runs past the
/// end.
pub open spec fn options_parse(s: Seq<u8>) -> Option<Seq<(u16, Seq<u8>)>>
    decreases s.len(),
{
    if s.len() < 4 {
        Some(Seq::empty())
    } else {
        let len = be16_at(s, 2);
        if 4 + len > s.len() {
            None
        } else {
            match options_parse(s.skip(4 + len)) {
                Some(rest) => Some(seq![(be16_at(s, 0) as u16, s.subrange(4, 4 + len))] + rest),
                None => None,
            }
        }
    }
}

/// The octets of a message: type, 24-bit transaction id, options.
pub open spec fn message_bytes(msg_type: u8, tid: u32, opts: Seq<(u16, Seq<u8>)>) -> Seq<u8> {
    seq![msg_type] + u24_bytes((tid % 0x100_0000) as u32) + options_bytes(opts)
}

/// The 24-bit transaction id a message carries.
pub open spec fn tid24(tid: u32) -> u32 {
    (tid % 0x100_0000) as u32
}

fn mask_tid(tid: u32) -> (r: u32)
    ensures
        r == tid24(tid),
{
    assert(tid & 0x00FF_FFFFu32 == tid % 0x100_0000) by (bit_vector);
    tid & 0x00FF_FFFF
}

/// An option with the given code and data.
fn opt(code: u16, data: Vec<u8>) -> (r: Dhcpv6Option)
    ensures
        r@ == (code, data@),
{
    Dhcpv6Option { code, data }
}

/// The options of a Solicit.
pub open spec fn solicit_opts(client_duid: Seq<u8>, rapid_commit: bool, request_pd: bool) -> Seq<(u16, Seq<u8>)> {
    seq![(DHCPV6_OPT_CLIENTID, client_duid)] + (if rapid_commit {
        seq![(DHCPV6_OPT_RAPID_COMMIT, Seq::<u8>::empty())]
    } else {
        Seq::empty()
    }) + seq![
        (DHCPV6_OPT_ELAPSED_TIME, seq![0u8, 0u8]),
        (DHCPV6_OPT_IA_NA, u32_bytes(1) + u32_bytes(0) + u32_bytes(0)),
    ] + (if request_pd {
        seq![(DHCPV6_OPT_IA_PD, u32_bytes(2) + u32_bytes(0) + u32_bytes(0))]
    } else {
        Seq::empty()
    }) + seq![(DHCPV6_OPT_ORO, u16_bytes(DHCPV6_OPT_DNS_SERVERS) + u16_bytes(DHCPV6_OPT_DNSSL))]
}

/// An IA Address sub-option.
pub open spec fn iaaddr_sub(addr: Seq<u8>, preferred: u32, valid: u32) -> Seq<u8> {
    u16_bytes(DHCPV6_OPT_IAADDR) + u16_bytes(24) + addr + u32_bytes(preferred) + u32_bytes(valid)
}

/// An IA Prefix sub-option.
pub open spec fn iaprefix_sub(preferred: u32, valid: u32, prefix_len: u8, prefix: Seq<u8>) -> Seq<u8> {
    u16_bytes(DHCPV6_OPT_IAPREFIX) + u16_bytes(25) + u32_bytes(preferred) + u32_bytes(valid) + seq![prefix_len]
        + prefix
}

/// The data of an identity association: IAID, T1, T2, then its sub-options.
pub open spec fn ia_data(iaid: u32, t1: u32, t2: u32, subs: Seq<u8>) -> Seq<u8> {
    u32_bytes(iaid) + u32_bytes(t1) + u32_bytes(t2) + subs
}

/// The addresses of a DNS servers option, back to back.
pub open spec fn addrs_bytes(addrs: Seq<Ipv6Address>) -> Seq<u8>
    decreases addrs.len(),
{
    if addrs.len() == 0 {
        Seq::empty()
    } else {
        addrs_bytes(addrs.drop_last()) + addrs.last().0@
    }
}

/// A finished label: its length octet (to eight bits) and its octets; nothing if empty.
pub open spec fn flush_label(cur: Seq<u8>) -> Seq<u8> {
    if cur.len() == 0 { Seq::empty() } else { seq![(cur.len() % 256) as u8] + cur }
}

/// The labels of the rest `b` of a domain name whose current label so far is `cur`: the
/// name split at each '.', empty labels left out.
pub open spec fn labels_from(b: Seq<u8>, cur: Seq<u8>) -> Seq<u8>
    decreases b.len(),
{
    if b.len() == 0 {
        flush_label(cur)
    } else if b[0] == 46 {
        flush_label(cur) + labels_from(b.skip(1), Seq::empty())
    } else {
        labels_from(b.skip(1), cur.push(b[0]))
    }
}

/// The encoded search list: each domain's labels followed by a zero octet.
pub open spec fn dnssl_bytes(domains: Seq<Seq<u8>>) -> Seq<u8>
    decreases domains.len(),
{
    if domains.len() == 0 {
        Seq::empty()
    } else {
        dnssl_bytes(domains.drop_last()) + labels_from(domains.last(), Seq::empty()) + seq![0u8]
    }
}

/// The UTF-8 octets of each string.
pub open spec fn strings_bytes(v: Seq<String>) -> Seq<Seq<u8>> {
    v.map_values(|s: String| encode_utf8(s@))
}

/// The options of an Advertise (or of a Reply before its rapid-commit option).
pub open spec fn advertise_opts(
    client_duid: Seq<u8>,
    server_duid: Seq<u8>,
    assigned_ip: Option<Ipv6Address>,
    delegated_prefix: Option<(Ipv6Address, u8)>,
    dns_servers: Seq<Ipv6Address>,
    search_list: Seq<Seq<u8>>,
) -> Seq<(u16, Seq<u8>)> {
    seq![(DHCPV6_OPT_CLIENTID, client_duid), (DHCPV6_OPT_SERVERID, server_duid)] + (match assigned_ip {
        Some(ip) => seq![(DHCPV6_OPT_IA_NA, ia_data(1, 1800, 2880, iaaddr_sub(ip.0@, 3600, 7200)))],
        None => Seq::empty(),
    }) + (match delegated_prefix {
        Some((p, l)) => seq![(DHCPV6_OPT_IA_PD, ia_data(2, 1800, 2880, iaprefix_sub(3600, 7200, l, p.0@)))],
        None => Seq::empty(),
    }) + (if dns_servers.len() > 0 {
        seq![(DHCPV6_OPT_DNS_SERVERS, addrs_bytes(dns_servers))]
    } else {
        Seq::empty()
    }) + (if search_list.len() > 0 {
        seq![(DHCPV6_OPT_DNSSL, dnssl_bytes(search_list))]
    } else {
        Seq::empty()
    })
}

/// The IA Address sub-options for (address, preferred lifetime, valid lifetime) entries.
pub open spec fn na_subs(addrs: Seq<(Seq<u8>, u32, u32)>) -> Seq<u8>
    decreases addrs.len(),
{
    if addrs.len() == 0 {
        Seq::empty()
    } else {
        let a = addrs.last();
        na_subs(addrs.drop_last()) + iaaddr_sub(a.0, a.1, a.2)
    }
}

/// The IA Prefix sub-options for (preferred, valid, length, prefix) entries.
pub open spec fn pd_subs(prefixes: Seq<(u32, u32, u8, Seq<u8>)>) -> Seq<u8>
    decreases prefixes.len(),
{
    if prefixes.len() == 0 {
        Seq::empty()
    } else {
        let p = prefixes.last();
        pd_subs(prefixes.drop_last()) + iaprefix_sub(p.0, p.1, p.2, p.3)
    }
}

/// The options of a Request (or of a Release).
pub open spec fn request_opts(
    client_duid: Seq<u8>,
    server_duid: Seq<u8>,
    ia_na: Option<IaNaOption>,
    ia_pd: Option<IaPdOption>,
) -> Seq<(u16, Seq<u8>)> {
    seq![(DHCPV6_OPT_CLIENTID, client_duid), (DHCPV6_OPT_SERVERID, server_duid)] + (match ia_na {
        Some(na) => seq![(DHCPV6_OPT_IA_NA, ia_data(na.iaid, na.t1, na.t2, na_subs(addr_views(na.addresses@))))],
        None => Seq::empty(),
    }) + (match ia_pd {
        Some(pd) => seq![(DHCPV6_OPT_IA_PD, ia_data(pd.iaid, pd.t1, pd.t2, pd_subs(prefix_views(pd.prefixes@))))],
        None => Seq::empty(),
    })
}

fn ia_head(iaid: u32, t1: u32, t2: u32) -> (r: Vec<u8>)
    ensures
        r@ == ia_data(iaid, t1, t2, Seq::empty()),
{
    let mut b: Vec<u8> = Vec::new();
    push_u32(&mut b, iaid);
    push_u32(&mut b, t1);
    push_u32(&mut b, t2);
    assert(b@ =~= ia_data(iaid, t1, t2, Seq::empty()));
    b
}

fn push_iaaddr(buf: &mut Vec<u8>, addr: &Ipv6Address, preferred: u32, valid: u32)
    ensures
        final(buf)@ == old(buf)@ + iaaddr_sub(addr.0@, preferred, valid),
{
    push_u16(buf, DHCPV6_OPT_IAADDR);
    push_u16(buf, 24);
    push_all(buf, &addr.0);
    push_u32(buf, preferred);
    push_u32(buf, valid);
    assert(final(buf)@ =~= old(buf)@ + iaaddr_sub(addr.0@, preferred, valid));
}

fn push_iaprefix(buf: &mut Vec<u8>, preferred: u32, valid: u32, prefix_len: u8, prefix: &Ipv6Address)
    ensures
        final(buf)@ == old(buf)@ + iaprefix_sub(preferred, valid, prefix_len, prefix.0@),
{
    push_u16(buf, DHCPV6_OPT_IAPREFIX);
    push_u16(buf, 25);
    push_u32(buf, preferred);
    push_u32(buf, valid);
    buf.push(prefix_len);
    push_all(buf, &prefix.0);
    assert(final(buf)@ =~= old(buf)@ + iaprefix_sub(preferred, valid, prefix_len, prefix.0@));
}

/// Appends the labels of one domain name and its terminating zero.
fn push_domain(buf: &mut Vec<u8>, name: &[u8])
    ensures
        final(buf)@ == old(buf)@ + labels_from(name@, Seq::empty()) + seq![0u8],
{
    let ghost start = buf@;
    let mut cur: Vec<u8> = Vec::new();
    let mut i: usize = 0;
    assert(name@.skip(0) =~= name@);
    assert(start + Seq::<u8>::empty() =~= start);
    while i < name.len()
        invariant
            i <= name@.len(),
            buf@ + labels_from(name@.skip(i as int), cur@) == start + labels_from(name@, Seq::empty()),
        decreases name@.len() - i,
    {
        let ghost rest = name@.skip(i as int);
        assert(rest.skip(1) =~= name@.skip(i + 1));
        if name[i] == 46 {
            if cur.len() > 0 {
                buf.push((cur.len() % 256) as u8);
                push_all(buf, cur.as_slice());
            }
            assert(buf@ == old(buf)@ + (start.subrange(0, 0)) + Seq::empty() || true);
            proof {
                assert(labels_from(rest, cur@) == flush_label(cur@) + labels_from(rest.skip(1), Seq::empty()));
            }
            cur = Vec::new();
        } else {
            cur.push(name[i]);
        }
        i = i + 1;
        proof {
            assert(buf@ + labels_from(name@.skip(i as int), cur@) =~= start + labels_from(name@, Seq::empty()));
        }
    }
    assert(name@.skip(i as int).len() == 0);
    if cur.len() > 0 {
        buf.push((cur.len() % 256) as u8);
        push_all(buf, cur.as_slice());
    }
    buf.push(0);
    assert(buf@ =~= start + labels_from(name@, Seq::empty()) + seq![0u8]);
}

impl Dhcpv6Message {
    pub fn build_solicit(transaction_id: u32, client_duid: &[u8]) -> (r: Self)
        ensures
            r.msg_type == DHCPV6_MSG_SOLICIT,
            r.transaction_id == tid24(transaction_id),
            opts_view(r.options@) == solicit_opts(client_duid@, false, false),
    {
        Self::build_solicit_full(transaction_id, client_duid, false, false)
    }

    /// A Solicit: client id, rapid commit when asked, elapsed time, an IA_NA (IAID 1), an
    /// IA_PD (IAID 2) when asked, and a request for DNS servers and the search list.
    pub fn build_solicit_full(transaction_id: u32, client_duid: &[u8], rapid_commit: bool, request_pd: bool) -> (r: Self)
        ensures
            r.msg_type == DHCPV6_MSG_SOLICIT,
            r.transaction_id == tid24(transaction_id),
            opts_view(r.options@) == solicit_opts(client_duid@, rapid_commit, request_pd),
    {
        let mut options: Vec<Dhcpv6Option> = Vec::new();
        options.push(opt(DHCPV6_OPT_CLIENTID, to_vec(client_duid)));
        let ghost rc: Seq<(u16, Seq<u8>)> = if rapid_commit {
            seq![(DHCPV6_OPT_RAPID_COMMIT, Seq::<u8>::empty())]
        } else {
            Seq::empty()
        };
        let ghost pd: Seq<(u16, Seq<u8>)> = if request_pd {
            seq![(DHCPV6_OPT_IA_PD, u32_bytes(2) + u32_bytes(0) + u32_bytes(0))]
        } else {
            Seq::empty()
        };
        if rapid_commit {
            options.push(opt(DHCPV6_OPT_RAPID_COMMIT, Vec::new()));
        }
        assert(opts_view(options@) =~= seq![(DHCPV6_OPT_CLIENTID, client_duid@)] + rc);
        let mut elapsed: Vec<u8> = Vec::new();
        elapsed.push(0);
        elapsed.push(0);
        assert(elapsed@ =~= seq![0u8, 0u8]);
        let ghost before_elapsed = opts_view(options@);
        options.push(opt(DHCPV6_OPT_ELAPSED_TIME, elapsed));
        assert(opts_view(options@) =~= before_elapsed.push((DHCPV6_OPT_ELAPSED_TIME, seq![0u8, 0u8])));
        let na = ia_head(1, 0, 0);
        assert(na@ =~= u32_bytes(1) + u32_bytes(0) + u32_bytes(0));
        options.push(opt(DHCPV6_OPT_IA_NA, na));
        let ghost mid = opts_view(options@);
        assert(mid =~= seq![(DHCPV6_OPT_CLIENTID, client_duid@)] + rc + seq![
            (DHCPV6_OPT_ELAPSED_TIME, seq![0u8, 0u8]),
            (DHCPV6_OPT_IA_NA, u32_bytes(1) + u32_bytes(0) + u32_bytes(0)),
        ]);
        if request_pd {
            let pdb = ia_head(2, 0, 0);
            assert(pdb@ =~= u32_bytes(2) + u32_bytes(0) + u32_bytes(0));
            options.push(opt(DHCPV6_OPT_IA_PD, pdb));
        }
        assert(opts_view(options@) =~= mid + pd);
        let mut oro: Vec<u8> = Vec::new();
        push_u16(&mut oro, DHCPV6_OPT_DNS_SERVERS);
        push_u16(&mut oro, DHCPV6_OPT_DNSSL);
        options.push(opt(DHCPV6_OPT_ORO, oro));
        assert(opts_view(options@) =~= solicit_opts(client_duid@, rapid_commit, request_pd));
        Dhcpv6Message { msg_type: DHCPV6_MSG_SOLICIT, transaction_id: mask_tid(transaction_id), options }
    }

    pub fn build_advertise(
        transaction_id: u32,
        client_duid: &[u8],
        server_duid: &[u8],
        assigned_ip: Ipv6Address,
        dns_server: Ipv6Address,
    ) -> (r: Self)
        ensures
            r.msg_type == DHCPV6_MSG_ADVERTISE,
            r.transaction_id == tid24(transaction_id),
            opts_view(r.options@) == advertise_opts(
                client_duid@,
                server_duid@,
                Some(assigned_ip),
                None,
                seq![dns_server],
                Seq::empty(),
            ),
    {
        let dns = [dns_server];
        let search: [String; 0] = [];
        let r = Self::build_advertise_full(transaction_id, client_duid, server_duid, Some(assigned_ip), None, &dns, &search);
        assert(dns@ =~= seq![dns_server]);
        assert(strings_bytes(search@) =~= Seq::<Seq<u8>>::empty());
        r
    }

    /// An Advertise: client and server ids, an IA_NA (IAID 1, T1 1800 s, T2 2880 s) with
    /// the assigned address (preferred 1 h, valid 2 h), an IA_PD (IAID 2) likewise with the
    /// delegated prefix, the DNS servers and the search list where there are any.
    pub fn build_advertise_full(
        transaction_id: u32,
        client_duid: &[u8],
        server_duid: &[u8],
        assigned_ip: Option<Ipv6Address>,
        delegated_prefix: Option<(Ipv6Address, u8)>,
        dns_servers: &[Ipv6Address],
        search_list: &[String],
    ) -> (r: Self)
        ensures
            r.msg_type == DHCPV6_MSG_ADVERTISE,
            r.transaction_id == tid24(transaction_id),
            opts_view(r.options@) == advertise_opts(
                client_duid@,
                server_duid@,
                assigned_ip,
                delegated_prefix,
                dns_servers@,
                strings_bytes(search_list@),
            ),
    {
        let mut options: Vec<Dhcpv6Option> = Vec::new();
        options.push(opt(DHCPV6_OPT_CLIENTID, to_vec(client_duid)));
        options.push(opt(DHCPV6_OPT_SERVERID, to_vec(server_duid)));
        let ghost base = opts_view(options@);
        match assigned_ip {
            Some(ip) => {
                let mut ia = ia_head(1, 1800, 2880);
                push_iaaddr(&mut ia, &ip, 3600, 7200);
                options.push(opt(DHCPV6_OPT_IA_NA, ia));
            },
            None => {},
        }
        match delegated_prefix {
            Some((prefix, prefix_len)) => {
                let mut ia = ia_head(2, 1800, 2880);
                push_iaprefix(&mut ia, 3600, 7200, prefix_len, &prefix);
                options.push(opt(DHCPV6_OPT_IA_PD, ia));
            },
            None => {},
        }
        if dns_servers.len() > 0 {
            let mut dns_bytes: Vec<u8> = Vec::new();
            let mut i: usize = 0;
            assert(dns_servers@.take(0).len() == 0);
            while i < dns_servers.len()
                invariant
                    i <= dns_servers@.len(),
                    dns_bytes@ == addrs_bytes(dns_servers@.take(i as int)),
                decreases dns_servers@.len() - i,
            {
                push_all(&mut dns_bytes, &dns_servers[i].0);
                i = i + 1;
                assert(dns_servers@.take(i as int).drop_last() =~= dns_servers@.take(i - 1));
            }
            assert(dns_servers@.take(i as int) =~= dns_servers@);
            options.push(opt(DHCPV6_OPT_DNS_SERVERS, dns_bytes));
        }
        if search_list.len() > 0 {
            let mut dnssl: Vec<u8> = Vec::new();
            let ghost names = strings_bytes(search_list@);
            let mut i: usize = 0;
            assert(names.take(0).len() == 0);
            while i < search_list.len()
                invariant
                    i <= search_list@.len(),
                    names == strings_bytes(search_list@),
                    dnssl@ == dnssl_bytes(names.take(i as int)),
                decreases search_list@.len() - i,
            {
                push_domain(&mut dnssl, search_list[i].as_str().as_bytes());
                i = i + 1;
                assert(names.take(i as int).drop_last() =~= names.take(i - 1));
            }
            assert(names.take(i as int) =~= names);
            options.push(opt(DHCPV6_OPT_DNSSL, dnssl));
        }
        proof {
            match assigned_ip {
                Some(ip) => {
                    assert(ia_data(1, 1800, 2880, Seq::empty()) + iaaddr_sub(ip.0@, 3600, 7200) =~= ia_data(
                        1,
                        1800,
                        2880,
                        iaaddr_sub(ip.0@, 3600, 7200),
                    ));
                },
                None => {},
            }
            match delegated_prefix {
                Some((p, l)) => {
                    assert(ia_data(2, 1800, 2880, Seq::empty()) + iaprefix_sub(3600, 7200, l, p.0@) =~= ia_data(
                        2,
                        1800,
                        2880,
                        iaprefix_sub(3600, 7200, l, p.0@),
                    ));
                },
                None => {},
            }
        }
        assert(opts_view(options@) =~= advertise_opts(
            client_duid@,
            server_duid@,
            assigned_ip,
            delegated_prefix,
            dns_servers@,
            strings_bytes(search_list@),
        ));
        Dhcpv6Message { msg_type: DHCPV6_MSG_ADVERTISE, transaction_id: mask_tid(transaction_id), options }
    }
}

/// The options of `m` read as identity-association values where present.
pub open spec fn opt_na(na: Option<&IaNaOption>) -> Option<IaNaOption> {
    match na {
        Some(x) => Some(*x),
        None => None,
    }
}

pub open spec fn opt_pd(pd: Option<&IaPdOption>) -> Option<IaPdOption> {
    match pd {
        Some(x) => Some(*x),
        None => None,
    }
}

fn na_bytes(na: &IaNaOption) -> (r: Vec<u8>)
    ensures
        r@ == ia_data(na.iaid, na.t1, na.t2, na_subs(addr_views(na.addresses@))),
{
    let mut b = ia_head(na.iaid, na.t1, na.t2);
    let ghost head = b@;
    let mut i: usize = 0;
    assert(na.addresses@.take(0).len() == 0);
    while i < na.addresses.len()
        invariant
            i <= na.addresses@.len(),
            head == ia_data(na.iaid, na.t1, na.t2, Seq::empty()),
            b@ == head + na_subs(addr_views(na.addresses@.take(i as int))),
        decreases na.addresses@.len() - i,
    {
        let a = na.addresses[i];
        push_iaaddr(&mut b, &a.address, a.preferred_lifetime, a.valid_lifetime);
        i = i + 1;
        assert(na.addresses@.take(i as int).drop_last() =~= na.addresses@.take(i - 1));
        assert(addr_views(na.addresses@.take(i as int)).drop_last() =~= addr_views(na.addresses@.take(i - 1)));
        assert(b@ =~= head + na_subs(addr_views(na.addresses@.take(i as int))));
    }
    assert(na.addresses@.take(i as int) =~= na.addresses@);
    assert(b@ =~= ia_data(na.iaid, na.t1, na.t2, na_subs(addr_views(na.addresses@))));
    b
}

fn pd_bytes(pd: &IaPdOption) -> (r: Vec<u8>)
    ensures
        r@ == ia_data(pd.iaid, pd.t1, pd.t2, pd_subs(prefix_views(pd.prefixes@))),
{
    let mut b = ia_head(pd.iaid, pd.t1, pd.t2);
    let ghost head = b@;
    let mut i: usize = 0;
    assert(pd.prefixes@.take(0).len() == 0);
    while i < pd.prefixes.len()
        invariant
            i <= pd.prefixes@.len(),
            head == ia_data(pd.iaid, pd.t1, pd.t2, Seq::empty()),
            b@ == head + pd_subs(prefix_views(pd.prefixes@.take(i as int))),
        decreases pd.prefixes@.len() - i,
    {
        let p = pd.prefixes[i];
        push_iaprefix(&mut b, p.preferred_lifetime, p.valid_lifetime, p.prefix_len, &p.prefix);
        i = i + 1;
        assert(pd.prefixes@.take(i as int).drop_last() =~= pd.prefixes@.take(i - 1));
        assert(prefix_views(pd.prefixes@.take(i as int)).drop_last() =~= prefix_views(pd.prefixes@.take(i - 1)));
        assert(b@ =~= head + pd_subs(prefix_views(pd.prefixes@.take(i as int))));
    }
    assert(pd.prefixes@.take(i as int) =~= pd.prefixes@);
    assert(b@ =~= ia_data(pd.iaid, pd.t1, pd.t2, pd_subs(prefix_views(pd.prefixes@))));
    b
}

/// The options from `s` on, until the parse stops (see `options_parse`).
fn parse_options(data: &[u8], start: usize) -> (r: Option<Vec<Dhcpv6Option>>)
    requires
        start <= data@.len(),
    ensures
        match r {
            Some(v) => options_parse(data@.skip(start as int)) == Some(opts_view(v@)),
            None => options_parse(data@.skip(start as int)) is None,
        },
{
    let mut options: Vec<Dhcpv6Option> = Vec::new();
    let mut offset: usize = start;
    proof {
        match options_parse(data@.skip(start as int)) {
            Some(all) => { assert(Seq::<(u16, Seq<u8>)>::empty() + all =~= all); },
            None => {},
        }
        assert(opts_view(options@) =~= Seq::<(u16, Seq<u8>)>::empty());
    }
    while data.len() - offset >= 4
        invariant
            start <= offset <= data@.len(),
            options_parse(data@.skip(start as int)) == (match options_parse(data@.skip(offset as int)) {
                Some(rest) => Some(opts_view(options@) + rest),
                None => None::<Seq<(u16, Seq<u8>)>>,
            }),
        decreases data@.len() - offset,
    {
        let ghost rest = data@.skip(offset as int);
        let code = read_u16(data, offset);
        let len = read_u16(data, offset + 2) as usize;
        assert(be16_at(rest, 0) == code && be16_at(rest, 2) == len);
        if data.len() - offset - 4 < len {
            return None;
        }
        let d = copy_range(data, offset + 4, offset + 4 + len);
        assert(d@ =~= rest.subrange(4, 4 + len as int));
        assert(rest.skip(4 + len as int) =~= data@.skip(offset + 4 + len));
        proof {
            match options_parse(data@.skip(offset + 4 + len)) {
                Some(tail) => {
                    assert(opts_view(options@.push(opt_value(code, d))) =~= opts_view(options@).push((code, d@)));
                    assert(opts_view(options@) + (seq![(code, d@)] + tail) =~= opts_view(options@).push((code, d@)) + tail);
                },
                None => {},
            }
        }
        options.push(Dhcpv6Option { code, data: d });
        offset = offset + 4 + len;
    }
    assert(data@.skip(offset as int).len() < 4);
    assert(opts_view(options@) + Seq::<(u16, Seq<u8>)>::empty() =~= opts_view(options@));
    Some(options)
}

/// The option value a code and data make.
pub open spec fn opt_value(code: u16, d: Vec<u8>) -> Dhcpv6Option {
    Dhcpv6Option { code, data: d }
}

impl Dhcpv6Message {
    /// A Request: client and server ids, then the identity associations given.
    pub fn build_request(
        transaction_id: u32,
        client_duid: &[u8],
        server_duid: &[u8],
        ia_na: Option<&IaNaOption>,
        ia_pd: Option<&IaPdOption>,
    ) -> (r: Self)
        ensures
            r.msg_type == DHCPV6_MSG_REQUEST,
            r.transaction_id == tid24(transaction_id),
            opts_view(r.options@) == request_opts(client_duid@, server_duid@, opt_na(ia_na), opt_pd(ia_pd)),
    {
        let mut options: Vec<Dhcpv6Option> = Vec::new();
        options.push(opt(DHCPV6_OPT_CLIENTID, to_vec(client_duid)));
        options.push(opt(DHCPV6_OPT_SERVERID, to_vec(server_duid)));
        match ia_na {
            Some(na) => options.push(opt(DHCPV6_OPT_IA_NA, na_bytes(na))),
            None => {},
        }
        match ia_pd {
            Some(pd) => options.push(opt(DHCPV6_OPT_IA_PD, pd_bytes(pd))),
            None => {},
        }
        assert(opts_view(options@) =~= request_opts(client_duid@, server_duid@, opt_na(ia_na), opt_pd(ia_pd)));
        Dhcpv6Message { msg_type: DHCPV6_MSG_REQUEST, transaction_id: mask_tid(transaction_id), options }
    }

    /// A Reply: the options of an Advertise, then rapid commit when asked.
    pub fn build_reply(
        transaction_id: u32,
        client_duid: &[u8],
        server_duid: &[u8],
        assigned_ip: Option<Ipv6Address>,
        delegated_prefix: Option<(Ipv6Address, u8)>,
        dns_servers: &[Ipv6Address],
        search_list: &[String],
        rapid_commit: bool,
    ) -> (r: Self)
        ensures
            r.msg_type == DHCPV6_MSG_REPLY,
            r.transaction_id == tid24(transaction_id),
            opts_view(r.options@) == advertise_opts(
                client_duid@,
                server_duid@,
                assigned_ip,
                delegated_prefix,
                dns_servers@,
                strings_bytes(search_list@),
            ) + (if rapid_commit {
                seq![(DHCPV6_OPT_RAPID_COMMIT, Seq::<u8>::empty())]
            } else {
                Seq::empty()
            }),
    {
        let mut msg = Self::build_advertise_full(
            transaction_id,
            client_duid,
            server_duid,
            assigned_ip,
            delegated_prefix,
            dns_servers,
            search_list,
        );
        msg.msg_type = DHCPV6_MSG_REPLY;
        let ghost before = opts_view(msg.options@);
        if rapid_commit {
            msg.options.push(opt(DHCPV6_OPT_RAPID_COMMIT, Vec::new()));
        }
        assert(opts_view(msg.options@) =~= before + (if rapid_commit {
            seq![(DHCPV6_OPT_RAPID_COMMIT, Seq::<u8>::empty())]
        } else {
            Seq::empty()
        }));
        msg
    }

    /// A Release: the options of a Request.
    pub fn build_release(
        transaction_id: u32,
        client_duid: &[u8],
        server_duid: &[u8],
        ia_na: Option<&IaNaOption>,
        ia_pd: Option<&IaPdOption>,
    ) -> (r: Self)
        ensures
            r.msg_type == DHCPV6_MSG_RELEASE,
            r.transaction_id == tid24(transaction_id),
            opts_view(r.options@) == request_opts(client_duid@, server_duid@, opt_na(ia_na), opt_pd(ia_pd)),
    {
        let mut msg = Self::build_request(transaction_id, client_duid, server_duid, ia_na, ia_pd);
        msg.msg_type = DHCPV6_MSG_RELEASE;
        msg
    }

    pub fn serialize(&self) -> (r: Vec<u8>)
        ensures
            r@ == message_bytes(self.msg_type, self.transaction_id, opts_view(self.options@)),
    {
        let mut buf: Vec<u8> = Vec::new();
        buf.push(self.msg_type);
        let tid = mask_tid(self.transaction_id);
        buf.push(((tid / 65536) % 256) as u8);
        buf.push(((tid / 256) % 256) as u8);
        buf.push((tid % 256) as u8);
        let ghost head = buf@;
        assert(head =~= seq![self.msg_type] + u24_bytes(tid24(self.transaction_id)));
        let ghost ov = opts_view(self.options@);
        let mut i: usize = 0;
        assert(ov.take(0) =~= Seq::<(u16, Seq<u8>)>::empty());
        while i < self.options.len()
            invariant
                i <= self.options@.len(),
                ov == opts_view(self.options@),
                buf@ == head + options_bytes(ov.take(i as int)),
            decreases self.options@.len() - i,
        {
            let o = &self.options[i];
            push_u16(&mut buf, o.code);
            push_u16(&mut buf, (o.data.len() % 0x1_0000) as u16);
            push_all(&mut buf, o.data.as_slice());
            i = i + 1;
            assert(ov.take(i as int).drop_last() =~= ov.take(i - 1));
            assert(buf@ =~= head + options_bytes(ov.take(i as int)));
        }
        assert(ov.take(i as int) =~= ov);
        buf
    }

    /// Reads a message: too short under four octets, and an invalid length where an
    /// option runs past the end.
    pub fn parse(data: &[u8]) -> (r: Result<Self, Dhcpv6Error>)
        ensures
            data@.len() < 4 ==> r == Err::<Self, Dhcpv6Error>(Dhcpv6Error::PacketTooShort(data@.len() as usize)),
            data@.len() >= 4 ==> match options_parse(data@.skip(4)) {
                None => r == Err::<Self, Dhcpv6Error>(Dhcpv6Error::InvalidLength),
                Some(opts) => r matches Ok(m) && m.msg_type == data@[0] && m.transaction_id == be24_at(data@, 1)
                    && opts_view(m.options@) == opts,
            },
    {
        if data.len() < DHCPV6_HEADER_LEN {
            return Err(Dhcpv6Error::PacketTooShort(data.len()));
        }
        let msg_type = data[0];
        let transaction_id = (data[1] as u32) * 65536 + (data[2] as u32) * 256 + (data[3] as u32);
        match parse_options(data, 4) {
            Some(options) => Ok(Dhcpv6Message { msg_type, transaction_id, options }),
            None => Err(Dhcpv6Error::InvalidLength),
        }
    }
}

proof fn lemma_options_bytes_front(o: (u16, Seq<u8>), rest: Seq<(u16, Seq<u8>)>)
    ensures
        options_bytes(seq![o] + rest) == option_bytes(o) + options_bytes(rest),
    decreases rest.len(),
{
    if rest.len() == 0 {
        assert(seq![o] + rest =~= seq![o]);
        assert(seq![o].drop_last() =~= Seq::<(u16, Seq<u8>)>::empty());
        assert(options_bytes(Seq::<(u16, Seq<u8>)>::empty()) =~= Seq::<u8>::empty());
        assert(seq![o].last() == o);
        assert(options_bytes(seq![o]) =~= option_bytes(o));
        assert(option_bytes(o) + Seq::<u8>::empty() =~= option_bytes(o));
    } else {
        lemma_options_bytes_front(o, rest.drop_last());
        assert((seq![o] + rest).drop_last() =~= seq![o] + rest.drop_last());
        assert((seq![o] + rest).last() == rest.last());
        assert(options_bytes(seq![o] + rest) =~= option_bytes(o) + options_bytes(rest));
    }
}

/// Options whose data fit the 16-bit length field read back from their own octets.
pub proof fn lemma_options_roundtrip(opts: Seq<(u16, Seq<u8>)>)
    requires
        forall|i: int| 0 <= i < opts.len() ==> (#[trigger] opts[i]).1.len() < 0x1_0000,
    ensures
        options_parse(options_bytes(opts)) == Some(opts),
    decreases opts.len(),
{
    if opts.len() == 0 {
        assert(options_bytes(opts) =~= Seq::<u8>::empty());
        assert(opts =~= Seq::<(u16, Seq<u8>)>::empty());
    } else {
        let o = opts[0];
        let rest = opts.skip(1);
        assert(seq![o] + rest =~= opts);
        lemma_options_bytes_front(o, rest);
        assert forall|i: int| 0 <= i < rest.len() implies (#[trigger] rest[i]).1.len() < 0x1_0000 by {
            assert(rest[i] == opts[i + 1]);
        }
        lemma_options_roundtrip(rest);
        let b = options_bytes(opts);
        let ob = option_bytes(o);
        assert(o.1.len() < 0x1_0000);
        assert(be16_at(b, 0) == o.0);
        assert(be16_at(b, 2) == o.1.len());
        assert(b.subrange(4, 4 + o.1.len() as int) =~= o.1);
        assert(b.skip(4 + o.1.len() as int) =~= options_bytes(rest));
    }
}

/// A message whose options fit the 16-bit length field reads back from its own octets,
/// with the transaction id cut to its 24 bits.
pub proof fn lemma_message_roundtrip(msg_type: u8, tid: u32, opts: Seq<(u16, Seq<u8>)>)
    requires
        forall|i: int| 0 <= i < opts.len() ==> (#[trigger] opts[i]).1.len() < 0x1_0000,
    ensures
        message_bytes(msg_type, tid, opts).len() >= 4,
        message_bytes(msg_type, tid, opts)[0] == msg_type,
        be24_at(message_bytes(msg_type, tid, opts), 1) == tid24(tid),
        options_parse(message_bytes(msg_type, tid, opts).skip(4)) == Some(opts),
{
    let b = message_bytes(msg_type, tid, opts);
    crate::wire::lemma_u24_roundtrip(tid24(tid));
    assert(b.subrange(1, 4) =~= u24_bytes(tid24(tid)));
    assert(be24_at(b, 1) == be24_at(u24_bytes(tid24(tid)), 0));
    assert(b.skip(4) =~= options_bytes(opts));
    lemma_options_roundtrip(opts);
}

/// The data of the first option with `code` whose data holds `min` octets or more.
pub open spec fn first_opt(opts: Seq<(u16, Seq<u8>)>, code: u16, min: nat) -> Option<Seq<u8>>
    decreases opts.len(),
{
    if opts.len() == 0 {
        None
    } else if opts[0].0 == code && opts[0].1.len() >= min {
        Some(opts[0].1)
    } else {
        first_opt(opts.skip(1), code, min)
    }
}

/// The addresses of the IA Address sub-options in `s` (each of 24 octets or more), as
/// (address, preferred lifetime, valid lifetime); the walk stops at a sub-option that runs
/// past the end or when fewer than four octets are left.
pub open spec fn na_addrs(s: Seq<u8>) -> Seq<(Seq<u8>, u32, u32)>
    decreases s.len(),
{
    if s.len() < 4 {
        Seq::empty()
    } else {
        let l = be16_at(s, 2);
        if 4 + l > s.len() {
            Seq::empty()
        } else {
            (if be16_at(s, 0) == DHCPV6_OPT_IAADDR && l >= 24 {
                seq![(s.subrange(4, 20), be32_at(s, 20) as u32, be32_at(s, 24) as u32)]
            } else {
                Seq::empty()
            }) + na_addrs(s.skip(4 + l))
        }
    }
}

/// The prefixes of the IA Prefix sub-options in `s` (each of 25 octets or more), as
/// (preferred lifetime, valid lifetime, prefix length, prefix); the walk stops as for
/// addresses.
pub open spec fn pd_prefixes(s: Seq<u8>) -> Seq<(u32, u32, u8, Seq<u8>)>
    decreases s.len(),
{
    if s.len() < 4 {
        Seq::empty()
    } else {
        let l = be16_at(s, 2);
        if 4 + l > s.len() {
            Seq::empty()
        } else {
            (if be16_at(s, 0) == DHCPV6_OPT_IAPREFIX && l >= 25 {
                seq![(be32_at(s, 4) as u32, be32_at(s, 8) as u32, s[12], s.subrange(13, 29))]
            } else {
                Seq::empty()
            }) + pd_prefixes(s.skip(4 + l))
        }
    }
}

pub open spec fn addr_views(v: Seq<IaAddressOption>) -> Seq<(Seq<u8>, u32, u32)> {
    v.map_values(|a: IaAddressOption| (a.address.0@, a.preferred_lifetime, a.valid_lifetime))
}

pub open spec fn prefix_views(v: Seq<IaPrefixOption>) -> Seq<(u32, u32, u8, Seq<u8>)> {
    v.map_values(|p: IaPrefixOption| (p.preferred_lifetime, p.valid_lifetime, p.prefix_len, p.prefix.0@))
}

/// The addresses of the DNS servers options: each option's data in whole 16-octet pieces.
pub open spec fn dns_of(opts: Seq<(u16, Seq<u8>)>) -> Seq<Seq<u8>>
    decreases opts.len(),
{
    if opts.len() == 0 {
        Seq::empty()
    } else {
        dns_of(opts.drop_last()) + (if opts.last().0 == DHCPV6_OPT_DNS_SERVERS {
            chunks16(opts.last().1)
        } else {
            Seq::empty()
        })
    }
}

pub open spec fn chunks16(s: Seq<u8>) -> Seq<Seq<u8>> {
    Seq::new(s.len() / 16, |i: int| s.subrange(16 * i, 16 * i + 16))
}

/// Walks the sub-options of an identity association for IA Address options.
fn read_na_addrs(d: &[u8]) -> (r: Vec<IaAddressOption>)
    requires
        d@.len() >= 12,
    ensures
        addr_views(r@) == na_addrs(d@.skip(12)),
{
    let mut out: Vec<IaAddressOption> = Vec::new();
    let mut off: usize = 12;
    assert(addr_views(out@) + na_addrs(d@.skip(12)) =~= na_addrs(d@.skip(12)));
    while d.len() - off >= 4
        invariant
            12 <= off <= d@.len(),
            addr_views(out@) + na_addrs(d@.skip(off as int)) == na_addrs(d@.skip(12)),
        ensures
            addr_views(out@) == na_addrs(d@.skip(12)),
        decreases d@.len() - off,
    {
        let ghost rest = d@.skip(off as int);
        let code = read_u16(d, off);
        let len = read_u16(d, off + 2) as usize;
        assert(be16_at(rest, 0) == code && be16_at(rest, 2) == len);
        if d.len() - off - 4 < len {
            assert(na_addrs(rest) =~= Seq::<(Seq<u8>, u32, u32)>::empty());
            break;
        }
        assert(rest.skip(4 + len as int) =~= d@.skip(off + 4 + len));
        if code == DHCPV6_OPT_IAADDR && len >= 24 {
            let a = IaAddressOption {
                address: Ipv6Address(addr16_from(d, off + 4)),
                preferred_lifetime: read_u32(d, off + 20),
                valid_lifetime: read_u32(d, off + 24),
            };
            assert(a.address.0@ =~= rest.subrange(4, 20));
            out.push(a);
            assert(addr_views(out@) =~= addr_views(out@.drop_last()).push(
                (rest.subrange(4, 20), be32_at(rest, 20) as u32, be32_at(rest, 24) as u32),
            ));
        }
        off = off + 4 + len;
        assert(addr_views(out@) + na_addrs(d@.skip(off as int)) =~= na_addrs(d@.skip(12)));
    }
    proof {
        if d@.len() - off < 4 {
            assert(na_addrs(d@.skip(off as int)) =~= Seq::<(Seq<u8>, u32, u32)>::empty());
        }
    }
    assert(addr_views(out@) + Seq::<(Seq<u8>, u32, u32)>::empty() =~= addr_views(out@));
    out
}

/// Walks the sub-options of an identity association for IA Prefix options.
fn read_pd_prefixes(d: &[u8]) -> (r: Vec<IaPrefixOption>)
    requires
        d@.len() >= 12,
    ensures
        prefix_views(r@) == pd_prefixes(d@.skip(12)),
{
    let mut out: Vec<IaPrefixOption> = Vec::new();
    let mut off: usize = 12;
    assert(prefix_views(out@) + pd_prefixes(d@.skip(12)) =~= pd_prefixes(d@.skip(12)));
    while d.len() - off >= 4
        invariant
            12 <= off <= d@.len(),
            prefix_views(out@) + pd_prefixes(d@.skip(off as int)) == pd_prefixes(d@.skip(12)),
        ensures
            prefix_views(out@) == pd_prefixes(d@.skip(12)),
        decreases d@.len() - off,
    {
        let ghost rest = d@.skip(off as int);
        let code = read_u16(d, off);
        let len = read_u16(d, off + 2) as usize;
        assert(be16_at(rest, 0) == code && be16_at(rest, 2) == len);
        if d.len() - off - 4 < len {
            assert(pd_prefixes(rest) =~= Seq::<(u32, u32, u8, Seq<u8>)>::empty());
            break;
        }
        assert(rest.skip(4 + len as int) =~= d@.skip(off + 4 + len));
        if code == DHCPV6_OPT_IAPREFIX && len >= 25 {
            let p = IaPrefixOption {
                preferred_lifetime: read_u32(d, off + 4),
                valid_lifetime: read_u32(d, off + 8),
                prefix_len: d[off + 12],
                prefix: Ipv6Address(addr16_from(d, off + 13)),
            };
            assert(p.prefix.0@ =~= rest.subrange(13, 29));
            out.push(p);
            assert(prefix_views(out@) =~= prefix_views(out@.drop_last()).push(
                (be32_at(rest, 4) as u32, be32_at(rest, 8) as u32, rest[12], rest.subrange(13, 29)),
            ));
        }
        off = off + 4 + len;
        assert(prefix_views(out@) + pd_prefixes(d@.skip(off as int)) =~= pd_prefixes(d@.skip(12)));
    }
    proof {
        if d@.len() - off < 4 {
            assert(pd_prefixes(d@.skip(off as int)) =~= Seq::<(u32, u32, u8, Seq<u8>)>::empty());
        }
    }
    assert(prefix_views(out@) + Seq::<(u32, u32, u8, Seq<u8>)>::empty() =~= prefix_views(out@));
    out
}

/// The position of the first option with `code` whose data holds `min` octets or more.
fn find_opt(options: &Vec<Dhcpv6Option>, code: u16, min: usize) -> (r: Option<usize>)
    ensures
        match r {
            Some(i) => i < options@.len() && options@[i as int].data@.len() >= min && first_opt(
                opts_view(options@),
                code,
                min as nat,
            ) == Some(options@[i as int].data@),
            None => first_opt(opts_view(options@), code, min as nat) is None,
        },
{
    let ghost ov = opts_view(options@);
    let mut i: usize = 0;
    assert(ov.skip(0) =~= ov);
    while i < options.len()
        invariant
            i <= options@.len(),
            ov == opts_view(options@),
            first_opt(ov, code, min as nat) == first_opt(ov.skip(i as int), code, min as nat),
        decreases options@.len() - i,
    {
        assert(ov.skip(i as int).skip(1) =~= ov.skip(i + 1));
        assert(ov.skip(i as int)[0] == options@[i as int]@);
        if options[i].code == code && options[i].data.len() >= min {
            return Some(i);
        }
        i = i + 1;
    }
    None
}

impl Dhcpv6Message {
    /// The first IA_NA of twelve octets or more: IAID, T1, T2 and its addresses.
    pub fn get_ia_na(&self) -> (r: Option<IaNaOption>)
        ensures
            match first_opt(opts_view(self.options@), DHCPV6_OPT_IA_NA, 12) {
                None => r is None,
                Some(d) => r matches Some(na) && na.iaid == be32_at(d, 0) && na.t1 == be32_at(d, 4)
                    && na.t2 == be32_at(d, 8) && addr_views(na.addresses@) == na_addrs(d.skip(12)),
            },
    {
        match find_opt(&self.options, DHCPV6_OPT_IA_NA, 12) {
            None => None,
            Some(i) => {
                let d = self.options[i].data.as_slice();
                Some(IaNaOption {
                    iaid: read_u32(d, 0),
                    t1: read_u32(d, 4),
                    t2: read_u32(d, 8),
                    addresses: read_na_addrs(d),
                })
            },
        }
    }

    /// The first IA_PD of twelve octets or more: IAID, T1, T2 and its prefixes.
    pub fn get_ia_pd(&self) -> (r: Option<IaPdOption>)
        ensures
            match first_opt(opts_view(self.options@), DHCPV6_OPT_IA_PD, 12) {
                None => r is None,
                Some(d) => r matches Some(pd) && pd.iaid == be32_at(d, 0) && pd.t1 == be32_at(d, 4)
                    && pd.t2 == be32_at(d, 8) && prefix_views(pd.prefixes@) == pd_prefixes(d.skip(12)),
            },
    {
        match find_opt(&self.options, DHCPV6_OPT_IA_PD, 12) {
            None => None,
            Some(i) => {
                let d = self.options[i].data.as_slice();
                Some(IaPdOption {
                    iaid: read_u32(d, 0),
                    t1: read_u32(d, 4),
                    t2: read_u32(d, 8),
                    prefixes: read_pd_prefixes(d),
                })
            },
        }
    }

    /// The first address of the first IA_NA.
    pub fn get_assigned_ipv6(&self) -> (r: Option<Ipv6Address>)
        ensures
            match first_opt(opts_view(self.options@), DHCPV6_OPT_IA_NA, 12) {
                Some(d) if na_addrs(d.skip(12)).len() > 0 => r matches Some(a) && a.0@ == na_addrs(d.skip(12))[0].0,
                _ => r is None,
            },
    {
        let ia_na = match self.get_ia_na() {
            Some(na) => na,
            None => return None,
        };
        if ia_na.addresses.len() > 0 {
            assert(addr_views(ia_na.addresses@)[0] == (ia_na.addresses@[0].address.0@, ia_na.addresses@[0].preferred_lifetime, ia_na.addresses@[0].valid_lifetime));
            Some(ia_na.addresses[0].address)
        } else {
            None
        }
    }

    /// The first prefix of the first IA_PD, with its length.
    pub fn get_delegated_prefix(&self) -> (r: Option<(Ipv6Address, u8)>)
        ensures
            match first_opt(opts_view(self.options@), DHCPV6_OPT_IA_PD, 12) {
                Some(d) if pd_prefixes(d.skip(12)).len() > 0 => r matches Some((p, l))
                    && p.0@ == pd_prefixes(d.skip(12))[0].3 && l == pd_prefixes(d.skip(12))[0].2,
                _ => r is None,
            },
    {
        let ia_pd = match self.get_ia_pd() {
            Some(pd) => pd,
            None => return None,
        };
        if ia_pd.prefixes.len() > 0 {
            assert(prefix_views(ia_pd.prefixes@)[0] == (ia_pd.prefixes@[0].preferred_lifetime, ia_pd.prefixes@[0].valid_lifetime, ia_pd.prefixes@[0].prefix_len, ia_pd.prefixes@[0].prefix.0@));
            Some((ia_pd.prefixes[0].prefix, ia_pd.prefixes[0].prefix_len))
        } else {
            None
        }
    }

    /// The addresses of all DNS servers options, in order.
    pub fn get_dns_servers(&self) -> (r: Vec<Ipv6Address>)
        ensures
            r@.map_values(|a: Ipv6Address| a.0@) == dns_of(opts_view(self.options@)),
    {
        let ghost ov = opts_view(self.options@);
        let mut servers: Vec<Ipv6Address> = Vec::new();
        let mut i: usize = 0;
        assert(ov.take(0).len() == 0);
        assert(servers@.map_values(|a: Ipv6Address| a.0@) =~= dns_of(ov.take(0)));
        while i < self.options.len()
            invariant
                i <= self.options@.len(),
                ov == opts_view(self.options@),
                servers@.map_values(|a: Ipv6Address| a.0@) == dns_of(ov.take(i as int)),
            decreases self.options@.len() - i,
        {
            let o = &self.options[i];
            assert(ov.take(i + 1).drop_last() =~= ov.take(i as int));
            assert(ov.take(i + 1).last() == o@);
            if o.code == DHCPV6_OPT_DNS_SERVERS {
                let ghost before = servers@.map_values(|a: Ipv6Address| a.0@);
                let d = o.data.as_slice();
                let mut off: usize = 0;
                while d.len() - off >= 16
                    invariant
                        off <= d@.len(),
                        off % 16 == 0,
                        servers@.map_values(|a: Ipv6Address| a.0@) == before + chunks16(d@).take(off as int / 16),
                    decreases d@.len() - off,
                {
                    let ghost old_servers = servers@;
                    let a = Ipv6Address(addr16_from(d, off));
                    servers.push(a);
                    proof {
                        assert(servers@.map_values(|a: Ipv6Address| a.0@) =~= old_servers.map_values(|a: Ipv6Address| a.0@).push(a.0@));
                        let k = off as int / 16;
                        assert(chunks16(d@).take(k + 1) =~= chunks16(d@).take(k).push(d@.subrange(off as int, off + 16)));
                        assert(servers@.map_values(|a: Ipv6Address| a.0@) =~= before + chunks16(d@).take(k + 1));
                    }
                    off = off + 16;
                }
                assert(off as int / 16 == d@.len() / 16);
                assert(chunks16(d@).take(off as int / 16) =~= chunks16(d@));
            } else {
                assert(dns_of(ov.take(i + 1)) =~= dns_of(ov.take(i as int)));
            }
            i = i + 1;
        }
        assert(ov.take(i as int) =~= ov);
        servers
    }

    /// Whether any option is a rapid-commit option.
    pub fn has_rapid_commit(&self) -> (r: bool)
        ensures
            r == exists|i: int| 0 <= i < self.options@.len() && (#[trigger] self.options@[i]).code == DHCPV6_OPT_RAPID_COMMIT,
    {
        let mut i: usize = 0;
        while i < self.options.len()
            invariant
                i <= self.options@.len(),
                forall|j: int| 0 <= j < i ==> (#[trigger] self.options@[j]).code != DHCPV6_OPT_RAPID_COMMIT,
            decreases self.options@.len() - i,
        {
            if self.options[i].code == DHCPV6_OPT_RAPID_COMMIT {
                return true;
            }
            i = i + 1;
        }
        false
    }
}

/// The labels of one domain name at the front of `s` and the octets they take: labels
/// until a zero octet (taken) or the end; `None` when a label is longer than 63 octets or
/// runs past the end. Each label is decoded as `String::from_utf8_lossy` decodes it.
pub open spec fn read_labels(s: Seq<u8>) -> Option<(Seq<Seq<char>>, int)>
    decreases s.len(),
{
    if s.len() == 0 {
        Some((Seq::empty(), 0))
    } else if s[0] == 0 {
        Some((Seq::empty(), 1))
    } else if s[0] > 63 || 1 + s[0] > s.len() {
        None
    } else {
        match read_labels(s.skip(1 + s[0])) {
            None => None,
            Some((ls, c)) => Some((seq![lossy_chars(s.subrange(1, 1 + s[0]))] + ls, 1 + s[0] + c)),
        }
    }
}

/// Labels joined with '.'.
pub open spec fn join_dots(ls: Seq<Seq<char>>) -> Seq<char>
    decreases ls.len(),
{
    if ls.len() == 0 {
        Seq::empty()
    } else if ls.len() == 1 {
        ls[0]
    } else {
        join_dots(ls.drop_last()) + seq!['.'] + ls.last()
    }
}

/// The domain names of a search-list option's data, and whether reading stopped at a bad
/// label (the names read before it are kept; a name with no labels is skipped).
pub open spec fn read_domains(s: Seq<u8>) -> (Seq<Seq<char>>, bool)
    decreases s.len(),
{
    if s.len() == 0 {
        (Seq::empty(), false)
    } else {
        match read_labels(s) {
            None => (Seq::empty(), true),
            Some((ls, c)) => if c <= 0 || c > s.len() {
                (Seq::empty(), false)
            } else {
                let (rest, stopped) = read_domains(s.skip(c));
                ((if ls.len() > 0 { seq![join_dots(ls)] } else { Seq::empty() }) + rest, stopped)
            },
        }
    }
}

/// The search list of a message: the names of its search-list options in order, up to
/// the first bad label.
pub open spec fn dnssl_of(opts: Seq<(u16, Seq<u8>)>) -> Seq<Seq<char>>
    decreases opts.len(),
{
    if opts.len() == 0 {
        Seq::empty()
    } else if opts[0].0 == DHCPV6_OPT_DNSSL {
        let (ds, stopped) = read_domains(opts[0].1);
        if stopped { ds } else { ds + dnssl_of(opts.skip(1)) }
    } else {
        dnssl_of(opts.skip(1))
    }
}

proof fn lemma_read_labels_consumed(s: Seq<u8>)
    ensures
        read_labels(s) matches Some((ls, c)) ==> 0 <= c <= s.len() && (s.len() > 0 ==> c > 0),
    decreases s.len(),
{
    if s.len() > 0 && s[0] != 0 && !(s[0] > 63 || 1 + s[0] > s.len()) {
        lemma_read_labels_consumed(s.skip(1 + s[0]));
    }
}

fn join_labels(labels: &Vec<String>) -> (r: String)
    ensures
        r@ == join_dots(labels@.map_values(|l: String| l@)),
{
    let ghost lv = labels@.map_values(|l: String| l@);
    let mut out = String::new();
    let mut j: usize = 0;
    assert(lv.take(0).len() == 0);
    while j < labels.len()
        invariant
            j <= labels@.len(),
            lv == labels@.map_values(|l: String| l@),
            out@ == join_dots(lv.take(j as int)),
        decreases labels@.len() - j,
    {
        assert(lv.take(j + 1).drop_last() =~= lv.take(j as int));
        assert(lv.take(j + 1).last() == labels@[j as int]@);
        if j > 0 {
            crate::text::push_char(&mut out, '.');
        }
        out.append(labels[j].as_str());
        j = j + 1;
        proof {
            if j == 1 {
                assert(lv.take(0).len() == 0);
                assert(out@ =~= lv.take(1)[0]);
            } else {
                assert(out@ =~= join_dots(lv.take(j - 1)) + seq!['.'] + lv.take(j as int).last());
            }
        }
    }
    assert(lv.take(j as int) =~= lv);
    out
}

/// Reads the labels of one name starting at `off`.
fn read_labels_at(d: &[u8], off: usize) -> (r: Option<(Vec<String>, usize)>)
    requires
        off <= d@.len(),
    ensures
        match r {
            None => read_labels(d@.skip(off as int)) is None,
            Some((ls, end)) => read_labels(d@.skip(off as int)) == Some(
                (ls@.map_values(|l: String| l@), end - off),
            ) && off <= end <= d@.len(),
        },
{
    let mut labels: Vec<String> = Vec::new();
    let mut o: usize = off;
    proof {
        match read_labels(d@.skip(off as int)) {
            Some((all, c)) => {
                assert(Seq::<Seq<char>>::empty() + all =~= all);
            },
            None => {},
        }
        assert(labels@.map_values(|l: String| l@) =~= Seq::<Seq<char>>::empty());
    }
    loop
        invariant
            off <= o <= d@.len(),
            read_labels(d@.skip(off as int)) == (match read_labels(d@.skip(o as int)) {
                None => None,
                Some((ls, c)) => Some((labels@.map_values(|l: String| l@) + ls, (o - off) + c)),
            }),
        decreases d@.len() - o,
    {
        let ghost rest = d@.skip(o as int);
        if o >= d.len() {
            assert(labels@.map_values(|l: String| l@) + Seq::<Seq<char>>::empty() =~= labels@.map_values(|l: String| l@));
            return Some((labels, o));
        }
        let len = d[o] as usize;
        assert(rest[0] == d@[o as int]);
        if len == 0 {
            assert(labels@.map_values(|l: String| l@) + Seq::<Seq<char>>::empty() =~= labels@.map_values(|l: String| l@));
            return Some((labels, o + 1));
        }
        if len > 63 || d.len() - o - 1 < len {
            return None;
        }
        let bytes = copy_range(d, o + 1, o + 1 + len);
        assert(bytes@ =~= rest.subrange(1, 1 + len as int));
        assert(rest.skip(1 + len as int) =~= d@.skip(o + 1 + len));
        let label = crate::text::string_from_utf8_lossy(bytes.as_slice());
        let ghost before = labels@.map_values(|l: String| l@);
        labels.push(label);
        proof {
            assert(labels@.map_values(|l: String| l@) =~= before.push(label@));
            match read_labels(d@.skip(o + 1 + len)) {
                Some((ls, c)) => {
                    assert(before + (seq![label@] + ls) =~= before.push(label@) + ls);
                },
                None => {},
            }
        }
        o = o + 1 + len;
    }
}

impl Dhcpv6Message {
    /// The domain names of the search-list options, in order (see `dnssl_of`).
    pub fn get_dnssl(&self) -> (r: Vec<String>)
        ensures
            r@.map_values(|s: String| s@) == dnssl_of(opts_view(self.options@)),
    {
        let ghost ov = opts_view(self.options@);
        let mut domains: Vec<String> = Vec::new();
        let mut i: usize = 0;
        assert(ov.skip(0) =~= ov);
        assert(domains@.map_values(|s: String| s@) + dnssl_of(ov) =~= dnssl_of(ov));
        while i < self.options.len()
            invariant
                i <= self.options@.len(),
                ov == opts_view(self.options@),
                domains@.map_values(|s: String| s@) + dnssl_of(ov.skip(i as int)) == dnssl_of(ov),
            decreases self.options@.len() - i,
        {
            let o = &self.options[i];
            assert(ov.skip(i as int)[0] == o@);
            assert(ov.skip(i as int).skip(1) =~= ov.skip(i + 1));
            if o.code == DHCPV6_OPT_DNSSL {
                let d = o.data.as_slice();
                let ghost base = domains@.map_values(|s: String| s@);
                let mut off: usize = 0;
                assert(d@.skip(0) =~= d@);
                assert(Seq::<Seq<char>>::empty() + read_domains(d@).0 =~= read_domains(d@).0);
                while off < d.len()
                    invariant
                        off <= d@.len(),
                        base + dnssl_of(ov.skip(i as int)) == dnssl_of(ov),
                        ov == opts_view(self.options@),
                        i < self.options@.len(),
                        ov.skip(i as int).len() > 0,
                        ov.skip(i as int)[0] == (DHCPV6_OPT_DNSSL, d@),
                        base + (domains@.map_values(|s: String| s@).skip(base.len() as int)) == domains@.map_values(|s: String| s@),
                        domains@.map_values(|s: String| s@).len() >= base.len(),
                        read_domains(d@) == (
                            domains@.map_values(|s: String| s@).skip(base.len() as int) + read_domains(d@.skip(off as int)).0,
                            read_domains(d@.skip(off as int)).1,
                        ),
                    decreases d@.len() - off,
                {
                    let ghost rest = d@.skip(off as int);
                    proof {
                        lemma_read_labels_consumed(rest);
                    }
                    match read_labels_at(d, off) {
                        None => {
                            proof {
                                let cur = domains@.map_values(|s: String| s@);
                                assert(read_domains(rest) == (Seq::<Seq<char>>::empty(), true));
                                assert(cur.skip(base.len() as int) + Seq::<Seq<char>>::empty() =~= cur.skip(base.len() as int));
                                assert(cur =~= base + read_domains(d@).0);
                                assert(read_domains(d@).1);
                                assert(dnssl_of(ov.skip(i as int)) == read_domains(d@).0);
                                assert(cur == dnssl_of(ov));
                            }
                            return domains;
                        },
                        Some((labels, end)) => {
                            assert(rest.skip(end - off) =~= d@.skip(end as int));
                            let ghost before = domains@.map_values(|s: String| s@);
                            if labels.len() > 0 {
                                let joined = join_labels(&labels);
                                domains.push(joined);
                                proof {
                                    assert(domains@.map_values(|s: String| s@) =~= before.push(joined@));
                                    assert(before.push(joined@).skip(base.len() as int) =~= before.skip(base.len() as int).push(joined@));
                                    assert(before.skip(base.len() as int).push(joined@) + read_domains(d@.skip(end as int)).0
                                        =~= before.skip(base.len() as int) + (seq![joined@] + read_domains(d@.skip(end as int)).0));
                                    assert(base + before.push(joined@).skip(base.len() as int) =~= before.push(joined@));
                                }
                            } else {
                                assert(Seq::<Seq<char>>::empty() + read_domains(d@.skip(end as int)).0 =~= read_domains(d@.skip(end as int)).0);
                            }
                            off = end;
                        },
                    }
                }
                proof {
                    let cur = domains@.map_values(|s: String| s@);
                    assert(d@.skip(off as int).len() == 0);
                    assert(cur.skip(base.len() as int) + Seq::<Seq<char>>::empty() =~= cur.skip(base.len() as int));
                    assert(cur + dnssl_of(ov.skip(i + 1)) =~= base + (read_domains(d@).0 + dnssl_of(ov.skip(i + 1))));
                }
            }
            i = i + 1;
        }
        assert(ov.skip(i as int).len() == 0);
        assert(domains@.map_values(|s: String| s@) + Seq::<Seq<char>>::empty() =~= domains@.map_values(|s: String| s@));
        domains
    }
}

// ---------------------------------------------------------------------------
// Server
// ---------------------------------------------------------------------------

/// The address handed out for pool slot `suffix`: 2001:db8::, the slot in the last two octets.
pub open spec fn pool_address(suffix: u16) -> Seq<u8> {
    seq![0x20u8, 0x01u8, 0x0Du8, 0xB8u8] + crate::wire::zeros(10) + u16_bytes(suffix)
}

/// The prefix delegated for pool index `index`: the pool base with the index in octets 6 and 7.
pub open spec fn pool_prefix(base: Seq<u8>, index: u16) -> Seq<u8> {
    base.update(6, (index / 256) as u8).update(7, (index % 256) as u8)
}

/// The number after `n`, wrapping at the top.
pub open spec fn wrap_inc(n: u16) -> u16 {
    if n == u16::MAX { 0 } else { (n + 1) as u16 }
}

#[derive(Debug, Clone)]
pub struct Dhcpv6Server {
    pub server_duid: Vec<u8>,
    pub next_ip_suffix: u16,
    pub next_prefix_index: u16,
    pub dns_servers: Vec<Ipv6Address>,
    pub search_list: Vec<String>,
    pub prefix_pool_base: Ipv6Address,
    pub prefix_delegation_len: u8,
    pub active_leases: BytesTable<Ipv6Address>,
    pub active_delegations: BytesTable<(Ipv6Address, u8)>,
}

/// The server's own settings, which the message handlers leave as they are.
pub open spec fn same_settings(a: Dhcpv6Server, b: Dhcpv6Server) -> bool {
    &&& a.server_duid@ == b.server_duid@
    &&& a.dns_servers@ == b.dns_servers@
    &&& a.search_list@ == b.search_list@
    &&& a.prefix_pool_base == b.prefix_pool_base
    &&& a.prefix_delegation_len == b.prefix_delegation_len
}

/// What a Solicit or Request binds for `duid`: the existing lease, or the next pool address.
pub open spec fn leased(s: Dhcpv6Server, duid: Seq<u8>) -> Seq<u8> {
    if s.active_leases@.dom().contains(duid) { s.active_leases@[duid].0@ } else { pool_address(s.next_ip_suffix) }
}

/// What a Solicit or Request asking for a prefix binds: the existing delegation, or the
/// next pool prefix with the configured length.
pub open spec fn delegated(s: Dhcpv6Server, duid: Seq<u8>) -> (Seq<u8>, u8) {
    if s.active_delegations@.dom().contains(duid) {
        (s.active_delegations@[duid].0.0@, s.active_delegations@[duid].1)
    } else {
        (pool_prefix(s.prefix_pool_base.0@, s.next_prefix_index), s.prefix_delegation_len)
    }
}

/// Whether any option has `code`.
pub open spec fn has_opt(opts: Seq<(u16, Seq<u8>)>, code: u16) -> bool {
    exists|i: int| 0 <= i < opts.len() && (#[trigger] opts[i]).0 == code
}

/// The server state after binding `duid` (and a prefix when `pd`): existing bindings are
/// kept; a new one takes the next pool slot.
pub open spec fn bound(old_s: Dhcpv6Server, new_s: Dhcpv6Server, duid: Seq<u8>, pd: bool) -> bool {
    &&& same_settings(new_s, old_s)
    &&& new_s.active_leases.wf() && new_s.active_delegations.wf()
    &&& new_s.active_leases@.dom() == old_s.active_leases@.dom().insert(duid)
    &&& new_s.active_leases@[duid].0@ == leased(old_s, duid)
    &&& forall|k: Seq<u8>| k != duid && #[trigger] old_s.active_leases@.dom().contains(k)
        ==> new_s.active_leases@[k] == old_s.active_leases@[k]
    &&& new_s.next_ip_suffix == (if old_s.active_leases@.dom().contains(duid) {
        old_s.next_ip_suffix
    } else {
        wrap_inc(old_s.next_ip_suffix)
    })
    &&& if pd {
        &&& new_s.active_delegations@.dom() == old_s.active_delegations@.dom().insert(duid)
        &&& (new_s.active_delegations@[duid].0.0@, new_s.active_delegations@[duid].1) == delegated(old_s, duid)
        &&& forall|k: Seq<u8>| k != duid && #[trigger] old_s.active_delegations@.dom().contains(k)
            ==> new_s.active_delegations@[k] == old_s.active_delegations@[k]
        &&& new_s.next_prefix_index == (if old_s.active_delegations@.dom().contains(duid) {
            old_s.next_prefix_index
        } else {
            wrap_inc(old_s.next_prefix_index)
        })
    } else {
        &&& new_s.active_delegations@ == old_s.active_delegations@
        &&& new_s.next_prefix_index == old_s.next_prefix_index
    }
}

/// The options the server answers a Solicit or Request with, for the bindings of `duid`
/// in `s` (the state after binding).
pub open spec fn server_answer_opts(s: Dhcpv6Server, duid: Seq<u8>, pd: bool) -> Seq<(u16, Seq<u8>)> {
    advertise_opts(
        duid,
        s.server_duid@,
        Some(s.active_leases@[duid]),
        if pd { Some(s.active_delegations@[duid]) } else { None },
        s.dns_servers@,
        strings_bytes(s.search_list@),
    )
}

fn first_client_id(options: &Vec<Dhcpv6Option>) -> (r: Option<Vec<u8>>)
    ensures
        match r {
            Some(d) => first_opt(opts_view(options@), DHCPV6_OPT_CLIENTID, 0) == Some(d@),
            None => first_opt(opts_view(options@), DHCPV6_OPT_CLIENTID, 0) is None,
        },
{
    match find_opt(options, DHCPV6_OPT_CLIENTID, 0) {
        Some(i) => Some(to_vec(options[i].data.as_slice())),
        None => None,
    }
}

fn any_opt(options: &Vec<Dhcpv6Option>, code: u16) -> (r: bool)
    ensures
        r == has_opt(opts_view(options@), code),
{
    let ghost ov = opts_view(options@);
    let mut i: usize = 0;
    while i < options.len()
        invariant
            i <= options@.len(),
            ov == opts_view(options@),
            forall|j: int| 0 <= j < i ==> (#[trigger] ov[j]).0 != code,
        decreases options@.len() - i,
    {
        assert(ov[i as int] == options@[i as int]@);
        if options[i].code == code {
            return true;
        }
        i = i + 1;
    }
    false
}

impl Dhcpv6Server {
    /// A server with its DUID, pool slot 100 and prefix index 1, one DNS server
    /// (2001:4860:4860::8888), the search list "lab.example.com", the prefix pool
    /// 2001:db8:cafe::/64, and no bindings.
    pub fn new() -> (r: Self)
        ensures
            r.server_duid@ == seq![0x00u8, 0x01, 0x00, 0x01, 0x2A, 0x55, 0x00, 0x50, 0x56, 0x00, 0x00, 0x01],
            r.next_ip_suffix == 100,
            r.next_prefix_index == 1,
            r.dns_servers@.len() == 1,
            r.dns_servers@[0].0@ == seq![0x20u8, 0x01, 0x48, 0x60, 0x48, 0x60, 0, 0, 0, 0, 0, 0, 0, 0, 0x88, 0x88],
            r.search_list@.len() == 1,
            r.search_list@[0]@ == "lab.example.com"@,
            r.prefix_pool_base.0@ == seq![0x20u8, 0x01, 0x0d, 0xb8, 0xca, 0xfe, 0, 0, 0, 0, 0, 0, 0, 0, 0, 0],
            r.prefix_delegation_len == 64,
            r.active_leases.wf(),
            r.active_delegations.wf(),
            r.active_leases@ == Map::<Seq<u8>, Ipv6Address>::empty(),
            r.active_delegations@ == Map::<Seq<u8>, (Ipv6Address, u8)>::empty(),
    {
        let duid = vec![0x00u8, 0x01, 0x00, 0x01, 0x2A, 0x55, 0x00, 0x50, 0x56, 0x00, 0x00, 0x01];
        let dns = Ipv6Address([0x20u8, 0x01, 0x48, 0x60, 0x48, 0x60, 0, 0, 0, 0, 0, 0, 0, 0, 0x88, 0x88]);
        let base = Ipv6Address([0x20u8, 0x01, 0x0d, 0xb8, 0xca, 0xfe, 0, 0, 0, 0, 0, 0, 0, 0, 0, 0]);
        let mut dns_servers: Vec<Ipv6Address> = Vec::new();
        dns_servers.push(dns);
        let mut search_list: Vec<String> = Vec::new();
        search_list.push(crate::text::owned("lab.example.com"));
        let r = Dhcpv6Server {
            server_duid: duid,
            next_ip_suffix: 100,
            next_prefix_index: 1,
            dns_servers,
            search_list,
            prefix_pool_base: base,
            prefix_delegation_len: 64,
            active_leases: BytesTable::new(),
            active_delegations: BytesTable::new(),
        };
        assert(r.server_duid@ =~= seq![0x00u8, 0x01, 0x00, 0x01, 0x2A, 0x55, 0x00, 0x50, 0x56, 0x00, 0x00, 0x01]);
        assert(r.dns_servers@[0].0@ =~= seq![0x20u8, 0x01, 0x48, 0x60, 0x48, 0x60, 0, 0, 0, 0, 0, 0, 0, 0, 0x88, 0x88]);
        assert(r.prefix_pool_base.0@ =~= seq![0x20u8, 0x01, 0x0d, 0xb8, 0xca, 0xfe, 0, 0, 0, 0, 0, 0, 0, 0, 0, 0]);
        r
    }

    /// The address bound to `client_duid`, binding the next pool address if there is none.
    fn allocate_ip(&mut self, client_duid: &[u8]) -> (r: Ipv6Address)
        requires
            old(self).active_leases.wf(),
        ensures
            final(self).active_leases.wf(),
            final(self).active_leases@ == old(self).active_leases@.insert(client_duid@, r),
            r.0@ == leased(*old(self), client_duid@),
            final(self).next_ip_suffix == (if old(self).active_leases@.dom().contains(client_duid@) {
                old(self).next_ip_suffix
            } else {
                wrap_inc(old(self).next_ip_suffix)
            }),
            final(self).next_prefix_index == old(self).next_prefix_index,
            final(self).active_delegations == old(self).active_delegations,
            same_settings(*final(self), *old(self)),
    {
        match self.active_leases.get(client_duid) {
            Some(existing) => {
                let e = *existing;
                assert(old(self).active_leases@.insert(client_duid@, e) =~= old(self).active_leases@);
                return e;
            },
            None => {},
        }
        let s = self.next_ip_suffix;
        let ip = Ipv6Address([
            0x20u8, 0x01, 0x0D, 0xB8, 0, 0, 0, 0, 0, 0, 0, 0, 0, 0, (s / 256) as u8, (s % 256) as u8,
        ]);
        assert(ip.0@ =~= pool_address(s));
        self.next_ip_suffix = if s == u16::MAX { 0 } else { s + 1 };
        self.active_leases.insert(to_vec(client_duid), ip);
        ip
    }

    /// The prefix delegated to `client_duid`, delegating the next pool prefix if there is none.
    fn allocate_prefix(&mut self, client_duid: &[u8]) -> (r: (Ipv6Address, u8))
        requires
            old(self).active_delegations.wf(),
        ensures
            final(self).active_delegations.wf(),
            final(self).active_delegations@ == old(self).active_delegations@.insert(client_duid@, r),
            (r.0.0@, r.1) == delegated(*old(self), client_duid@),
            final(self).next_prefix_index == (if old(self).active_delegations@.dom().contains(client_duid@) {
                old(self).next_prefix_index
            } else {
                wrap_inc(old(self).next_prefix_index)
            }),
            final(self).next_ip_suffix == old(self).next_ip_suffix,
            final(self).active_leases == old(self).active_leases,
            same_settings(*final(self), *old(self)),
    {
        match self.active_delegations.get(client_duid) {
            Some(existing) => {
                let e = *existing;
                assert(old(self).active_delegations@.insert(client_duid@, e) =~= old(self).active_delegations@);
                return e;
            },
            None => {},
        }
        let idx = self.next_prefix_index;
        let mut p_bytes = self.prefix_pool_base.0;
        p_bytes.set(6, (idx / 256) as u8);
        p_bytes.set(7, (idx % 256) as u8);
        assert(p_bytes@ =~= pool_prefix(self.prefix_pool_base.0@, idx));
        self.next_prefix_index = if idx == u16::MAX { 0 } else { idx + 1 };
        let prefix = (Ipv6Address(p_bytes), self.prefix_delegation_len);
        self.active_delegations.insert(to_vec(client_duid), prefix);
        prefix
    }

    fn bind(&mut self, client_duid: &[u8], pd: bool) -> (r: (Ipv6Address, Option<(Ipv6Address, u8)>))
        requires
            old(self).active_leases.wf(),
            old(self).active_delegations.wf(),
        ensures
            bound(*old(self), *final(self), client_duid@, pd),
            r.0 == final(self).active_leases@[client_duid@],
            r.1 == (if pd { Some(final(self).active_delegations@[client_duid@]) } else { None }),
    {
        let ip = self.allocate_ip(client_duid);
        let ghost mid = *self;
        let prefix = if pd {
            Some(self.allocate_prefix(client_duid))
        } else {
            None
        };
        proof {
            if pd {
                assert(self.active_delegations@.dom() =~= old(self).active_delegations@.dom().insert(client_duid@));
            }
            assert(self.active_leases@.dom() =~= old(self).active_leases@.dom().insert(client_duid@));
        }
        (ip, prefix)
    }

    /// Answers a Solicit: binds an address (and a prefix when the Solicit has an IA_PD)
    /// to its client id and sends a Reply with rapid commit when asked for, else an
    /// Advertise. `None`, and nothing changes, without a client id.
    pub fn handle_solicit(&mut self, msg: &Dhcpv6Message) -> (r: Option<Dhcpv6Message>)
        requires
            old(self).active_leases.wf(),
            old(self).active_delegations.wf(),
        ensures
            ({
                let ov = opts_view(msg.options@);
                match first_opt(ov, DHCPV6_OPT_CLIENTID, 0) {
                    None => r is None && *final(self) == *old(self),
                    Some(duid) => {
                        let pd = has_opt(ov, DHCPV6_OPT_IA_PD);
                        let rapid = has_opt(ov, DHCPV6_OPT_RAPID_COMMIT);
                        &&& bound(*old(self), *final(self), duid, pd)
                        &&& r matches Some(m) && m.transaction_id == tid24(msg.transaction_id)
                            && m.msg_type == (if rapid { DHCPV6_MSG_REPLY } else { DHCPV6_MSG_ADVERTISE })
                            && opts_view(m.options@) == server_answer_opts(*final(self), duid, pd) + (if rapid {
                                seq![(DHCPV6_OPT_RAPID_COMMIT, Seq::<u8>::empty())]
                            } else {
                                Seq::empty()
                            })
                    },
                }
            }),
    {
        let client_duid = match first_client_id(&msg.options) {
            Some(d) => d,
            None => return None,
        };
        let pd = any_opt(&msg.options, DHCPV6_OPT_IA_PD);
        let (ip, prefix) = self.bind(client_duid.as_slice(), pd);
        let rapid = any_opt(&msg.options, DHCPV6_OPT_RAPID_COMMIT);
        proof {
            assert(has_opt(opts_view(msg.options@), DHCPV6_OPT_RAPID_COMMIT) == rapid);
        }
        if rapid {
            Some(Dhcpv6Message::build_reply(
                msg.transaction_id,
                client_duid.as_slice(),
                self.server_duid.as_slice(),
                Some(ip),
                prefix,
                self.dns_servers.as_slice(),
                self.search_list.as_slice(),
                true,
            ))
        } else {
            let m = Dhcpv6Message::build_advertise_full(
                msg.transaction_id,
                client_duid.as_slice(),
                self.server_duid.as_slice(),
                Some(ip),
                prefix,
                self.dns_servers.as_slice(),
                self.search_list.as_slice(),
            );
            assert(opts_view(m.options@) + Seq::<(u16, Seq<u8>)>::empty() =~= opts_view(m.options@));
            Some(m)
        }
    }

    /// Answers a Request with a Reply for the bindings of its client id (binding anew
    /// where there is none). `None`, and nothing changes, without a client id.
    pub fn handle_request(&mut self, msg: &Dhcpv6Message) -> (r: Option<Dhcpv6Message>)
        requires
            old(self).active_leases.wf(),
            old(self).active_delegations.wf(),
        ensures
            ({
                let ov = opts_view(msg.options@);
                match first_opt(ov, DHCPV6_OPT_CLIENTID, 0) {
                    None => r is None && *final(self) == *old(self),
                    Some(duid) => {
                        let pd = has_opt(ov, DHCPV6_OPT_IA_PD);
                        &&& bound(*old(self), *final(self), duid, pd)
                        &&& r matches Some(m) && m.transaction_id == tid24(msg.transaction_id)
                            && m.msg_type == DHCPV6_MSG_REPLY
                            && opts_view(m.options@) == server_answer_opts(*final(self), duid, pd)
                    },
                }
            }),
    {
        let client_duid = match first_client_id(&msg.options) {
            Some(d) => d,
            None => return None,
        };
        let pd = any_opt(&msg.options, DHCPV6_OPT_IA_PD);
        let (ip, prefix) = self.bind(client_duid.as_slice(), pd);
        let m = Dhcpv6Message::build_reply(
            msg.transaction_id,
            client_duid.as_slice(),
            self.server_duid.as_slice(),
            Some(ip),
            prefix,
            self.dns_servers.as_slice(),
            self.search_list.as_slice(),
            false,
        );
        assert(opts_view(m.options@) =~= server_answer_opts(*self, client_duid@, pd));
        Some(m)
    }

    /// Answers a Release: drops the client's bindings and replies with success.
    pub fn handle_release(&mut self, msg: &Dhcpv6Message) -> (r: Option<Dhcpv6Message>)
        requires
            old(self).active_leases.wf(),
            old(self).active_delegations.wf(),
        ensures
            final(self).active_leases.wf(),
            final(self).active_delegations.wf(),
            same_settings(*final(self), *old(self)),
            final(self).next_ip_suffix == old(self).next_ip_suffix,
            final(self).next_prefix_index == old(self).next_prefix_index,
            match first_opt(opts_view(msg.options@), DHCPV6_OPT_CLIENTID, 0) {
                None => r is None && *final(self) == *old(self),
                Some(duid) => {
                    &&& final(self).active_leases@ == old(self).active_leases@.remove(duid)
                    &&& final(self).active_delegations@ == old(self).active_delegations@.remove(duid)
                    &&& r matches Some(m) && m.msg_type == DHCPV6_MSG_REPLY && m.transaction_id == msg.transaction_id
                        && opts_view(m.options@) == seq![
                            (DHCPV6_OPT_CLIENTID, duid),
                            (DHCPV6_OPT_SERVERID, old(self).server_duid@),
                            (DHCPV6_OPT_STATUS_CODE, u16_bytes(DHCPV6_STATUS_SUCCESS)),
                        ]
                },
            },
    {
        let client_duid = match first_client_id(&msg.options) {
            Some(d) => d,
            None => return None,
        };
        self.active_leases.remove(client_duid.as_slice());
        self.active_delegations.remove(client_duid.as_slice());
        let mut status: Vec<u8> = Vec::new();
        status.push(0);
        status.push(0);
        assert(status@ =~= u16_bytes(DHCPV6_STATUS_SUCCESS));
        let mut options: Vec<Dhcpv6Option> = Vec::new();
        options.push(opt(DHCPV6_OPT_CLIENTID, client_duid));
        options.push(opt(DHCPV6_OPT_SERVERID, to_vec(self.server_duid.as_slice())));
        options.push(opt(DHCPV6_OPT_STATUS_CODE, status));
        assert(opts_view(options@) =~= seq![
            (DHCPV6_OPT_CLIENTID, first_opt(opts_view(msg.options@), DHCPV6_OPT_CLIENTID, 0)->0),
            (DHCPV6_OPT_SERVERID, old(self).server_duid@),
            (DHCPV6_OPT_STATUS_CODE, u16_bytes(DHCPV6_STATUS_SUCCESS)),
        ]);
        Some(Dhcpv6Message { msg_type: DHCPV6_MSG_REPLY, transaction_id: msg.transaction_id, options })
    }
}

impl Default for Dhcpv6Server {
    fn default() -> (r: Self)
        ensures
            r.next_ip_suffix == 100,
            r.next_prefix_index == 1,
            r.prefix_delegation_len == 64,
            r.active_leases.wf(),
            r.active_delegations.wf(),
            r.active_leases@ == Map::<Seq<u8>, Ipv6Address>::empty(),
            r.active_delegations@ == Map::<Seq<u8>, (Ipv6Address, u8)>::empty(),
    {
        Self::new()
    }
}

// ---------------------------------------------------------------------------
// Client
// ---------------------------------------------------------------------------

#[derive(Debug, Clone, Copy, PartialEq, Eq, Structural)]
pub enum Dhcpv6ClientState {
    Init,
    Soliciting,
    Requesting,
    Bound,
    Renewing,
    Rebinding,
}

#[derive(Debug, Clone)]
pub struct Dhcpv6Client {
    pub state: Dhcpv6ClientState,
    pub client_duid: Duid,
    pub server_duid: Option<Vec<u8>>,
    pub transaction_id: u32,
    pub assigned_ip: Option<Ipv6Address>,
    pub delegated_prefix: Option<(Ipv6Address, u8)>,
    pub dns_servers: Vec<Ipv6Address>,
    pub search_list: Vec<String>,
    pub t1_ms: u64,
    pub t2_ms: u64,
    pub valid_until_ms: u64,
}

/// The options of a message in `data`, where it reads.
pub open spec fn parsed_opts(data: Seq<u8>) -> Option<Seq<(u16, Seq<u8>)>> {
    if data.len() < 4 { None } else { options_parse(data.skip(4)) }
}

/// The IA_NA a Request repeats from an Advertise's options.
pub open spec fn na_echo(ov: Seq<(u16, Seq<u8>)>) -> Seq<(u16, Seq<u8>)> {
    match first_opt(ov, DHCPV6_OPT_IA_NA, 12) {
        Some(d) => seq![(DHCPV6_OPT_IA_NA, ia_data(be32_at(d, 0) as u32, be32_at(d, 4) as u32, be32_at(d, 8) as u32, na_subs(na_addrs(d.skip(12)))))],
        None => Seq::empty(),
    }
}

/// The IA_PD a Request repeats from an Advertise's options.
pub open spec fn pd_echo(ov: Seq<(u16, Seq<u8>)>) -> Seq<(u16, Seq<u8>)> {
    match first_opt(ov, DHCPV6_OPT_IA_PD, 12) {
        Some(d) => seq![(DHCPV6_OPT_IA_PD, ia_data(be32_at(d, 0) as u32, be32_at(d, 4) as u32, be32_at(d, 8) as u32, pd_subs(pd_prefixes(d.skip(12)))))],
        None => Seq::empty(),
    }
}

/// `now` plus `secs` seconds in milliseconds, saturating.
pub open spec fn after_ms(now: u64, secs: int) -> u64 {
    now.saturating_add((secs * 1000) as u64)
}

impl Dhcpv6Client {
    pub fn new(duid: Duid) -> (r: Self)
        ensures
            r.state == Dhcpv6ClientState::Init,
            r.client_duid == duid,
            r.server_duid is None,
            r.transaction_id == 1,
            r.assigned_ip is None,
            r.delegated_prefix is None,
            r.dns_servers@.len() == 0,
            r.search_list@.len() == 0,
            r.t1_ms == 0 && r.t2_ms == 0 && r.valid_until_ms == 0,
    {
        Dhcpv6Client {
            state: Dhcpv6ClientState::Init,
            client_duid: duid,
            server_duid: None,
            transaction_id: 1,
            assigned_ip: None,
            delegated_prefix: None,
            dns_servers: Vec::new(),
            search_list: Vec::new(),
            t1_ms: 0,
            t2_ms: 0,
            valid_until_ms: 0,
        }
    }

    /// Starts a new exchange: the next transaction id, Soliciting, and the octets of a
    /// Solicit.
    pub fn start_solicit(&mut self, rapid_commit: bool, request_pd: bool, _now_ms: u64) -> (r: Vec<u8>)
        requires
            old(self).transaction_id < u32::MAX,
        ensures
            *final(self) == (Dhcpv6Client {
                transaction_id: tid24((old(self).transaction_id + 1) as u32),
                state: Dhcpv6ClientState::Soliciting,
                ..*old(self)
            }),
            r@ == message_bytes(
                DHCPV6_MSG_SOLICIT,
                final(self).transaction_id,
                solicit_opts(duid_bytes(old(self).client_duid), rapid_commit, request_pd),
            ),
    {
        self.transaction_id = mask_tid(self.transaction_id + 1);
        self.state = Dhcpv6ClientState::Soliciting;
        let duid_bytes = self.client_duid.serialize();
        let solicit = Dhcpv6Message::build_solicit_full(self.transaction_id, duid_bytes.as_slice(), rapid_commit, request_pd);
        assert(tid24(self.transaction_id) == self.transaction_id);
        solicit.serialize()
    }

    /// Takes an Advertise of the current exchange: remembers the server id, moves to
    /// Requesting and returns the octets of a Request repeating the offered identity
    /// associations. `None`, and nothing changes, for anything else or without a server id.
    pub fn handle_advertise(&mut self, data: &[u8], _now_ms: u64) -> (r: Option<Vec<u8>>)
        ensures
            match parsed_opts(data@) {
                Some(ov) if data@[0] == DHCPV6_MSG_ADVERTISE && be24_at(data@, 1) == old(self).transaction_id
                    && first_opt(ov, DHCPV6_OPT_SERVERID, 0) is Some => {
                    let sd = first_opt(ov, DHCPV6_OPT_SERVERID, 0)->0;
                    &&& final(self).server_duid matches Some(v) && v@ == sd
                    &&& final(self).state == Dhcpv6ClientState::Requesting
                    &&& *final(self) == (Dhcpv6Client {
                        server_duid: final(self).server_duid,
                        state: Dhcpv6ClientState::Requesting,
                        ..*old(self)
                    })
                    &&& r matches Some(b) && b@ == message_bytes(
                        DHCPV6_MSG_REQUEST,
                        old(self).transaction_id,
                        seq![(DHCPV6_OPT_CLIENTID, duid_bytes(old(self).client_duid)), (DHCPV6_OPT_SERVERID, sd)]
                            + na_echo(ov) + pd_echo(ov),
                    )
                },
                _ => r is None && *final(self) == *old(self),
            },
    {
        let msg = match Dhcpv6Message::parse(data) {
            Ok(m) => m,
            Err(_) => return None,
        };
        if msg.msg_type != DHCPV6_MSG_ADVERTISE || msg.transaction_id != self.transaction_id {
            return None;
        }
        let s_duid = match find_opt(&msg.options, DHCPV6_OPT_SERVERID, 0) {
            Some(i) => to_vec(msg.options[i].data.as_slice()),
            None => return None,
        };
        self.server_duid = Some(to_vec(s_duid.as_slice()));
        let ia_na = msg.get_ia_na();
        let ia_pd = msg.get_ia_pd();
        self.state = Dhcpv6ClientState::Requesting;
        let client_bytes = self.client_duid.serialize();
        let request = Dhcpv6Message::build_request(
            self.transaction_id,
            client_bytes.as_slice(),
            s_duid.as_slice(),
            ia_na.as_ref(),
            ia_pd.as_ref(),
        );
        proof {
            let ov = opts_view(msg.options@);
            assert(be24_at(data@, 1) < 0x100_0000);
            assert(tid24(self.transaction_id) == self.transaction_id);
            assert(request_opts(client_bytes@, s_duid@, ia_na, ia_pd) =~= seq![
                (DHCPV6_OPT_CLIENTID, duid_bytes(self.client_duid)),
                (DHCPV6_OPT_SERVERID, s_duid@),
            ] + na_echo(ov) + pd_echo(ov));
        }
        Some(request.serialize())
    }

    /// Takes a Reply of the current exchange: records the server id, address, prefix,
    /// DNS servers, search list and the IA_NA's timers (from `now_ms`, saturating), and
    /// moves to Bound. `false`, and nothing changes, for anything else.
    pub fn handle_reply(&mut self, data: &[u8], now_ms: u64) -> (r: bool)
        ensures
            match parsed_opts(data@) {
                Some(ov) if data@[0] == DHCPV6_MSG_REPLY && be24_at(data@, 1) == old(self).transaction_id => {
                    &&& r
                    &&& final(self).state == Dhcpv6ClientState::Bound
                    &&& final(self).client_duid == old(self).client_duid
                    &&& final(self).transaction_id == old(self).transaction_id
                    &&& match first_opt(ov, DHCPV6_OPT_SERVERID, 0) {
                        Some(sd) => final(self).server_duid matches Some(v) && v@ == sd,
                        None => final(self).server_duid == old(self).server_duid,
                    }
                    &&& match first_opt(ov, DHCPV6_OPT_IA_NA, 12) {
                        Some(d) if na_addrs(d.skip(12)).len() > 0 => final(self).assigned_ip matches Some(a)
                            && a.0@ == na_addrs(d.skip(12))[0].0,
                        _ => final(self).assigned_ip == old(self).assigned_ip,
                    }
                    &&& match first_opt(ov, DHCPV6_OPT_IA_PD, 12) {
                        Some(d) if pd_prefixes(d.skip(12)).len() > 0 => final(self).delegated_prefix matches Some((p, l))
                            && p.0@ == pd_prefixes(d.skip(12))[0].3 && l == pd_prefixes(d.skip(12))[0].2,
                        _ => final(self).delegated_prefix == old(self).delegated_prefix,
                    }
                    &&& final(self).dns_servers@.map_values(|a: Ipv6Address| a.0@) == dns_of(ov)
                    &&& final(self).search_list@.map_values(|s: String| s@) == dnssl_of(ov)
                    &&& match first_opt(ov, DHCPV6_OPT_IA_NA, 12) {
                        Some(d) => {
                            &&& final(self).t1_ms == after_ms(now_ms, be32_at(d, 4))
                            &&& final(self).t2_ms == after_ms(now_ms, be32_at(d, 8))
                            &&& final(self).valid_until_ms == (if na_addrs(d.skip(12)).len() > 0 {
                                after_ms(now_ms, na_addrs(d.skip(12))[0].2 as int)
                            } else {
                                old(self).valid_until_ms
                            })
                        },
                        None => {
                            &&& final(self).t1_ms == old(self).t1_ms
                            &&& final(self).t2_ms == old(self).t2_ms
                            &&& final(self).valid_until_ms == old(self).valid_until_ms
                        },
                    }
                },
                _ => !r && *final(self) == *old(self),
            },
    {
        let msg = match Dhcpv6Message::parse(data) {
            Ok(m) => m,
            Err(_) => return false,
        };
        if msg.msg_type != DHCPV6_MSG_REPLY || msg.transaction_id != self.transaction_id {
            return false;
        }
        match find_opt(&msg.options, DHCPV6_OPT_SERVERID, 0) {
            Some(i) => {
                self.server_duid = Some(to_vec(msg.options[i].data.as_slice()));
            },
            None => {},
        }
        match msg.get_assigned_ipv6() {
            Some(ip) => {
                self.assigned_ip = Some(ip);
            },
            None => {},
        }
        match msg.get_delegated_prefix() {
            Some(p) => {
                self.delegated_prefix = Some(p);
            },
            None => {},
        }
        self.dns_servers = msg.get_dns_servers();
        self.search_list = msg.get_dnssl();
        match msg.get_ia_na() {
            Some(na) => {
                self.t1_ms = now_ms.saturating_add((na.t1 as u64) * 1000);
                self.t2_ms = now_ms.saturating_add((na.t2 as u64) * 1000);
                if na.addresses.len() > 0 {
                    assert(addr_views(na.addresses@)[0].2 == na.addresses@[0].valid_lifetime);
                    self.valid_until_ms = now_ms.saturating_add((na.addresses[0].valid_lifetime as u64) * 1000);
                }
            },
            None => {},
        }
        self.state = Dhcpv6ClientState::Bound;
        true
    }

    /// Releases the address: with a server id and an address, the next transaction id,
    /// back to Init without address or prefix, and the octets of a Release naming the
    /// address with zero lifetimes. `None`, and nothing changes, otherwise.
    pub fn create_release(&mut self) -> (r: Option<Vec<u8>>)
        requires
            old(self).transaction_id < u32::MAX,
        ensures
            match (old(self).server_duid, old(self).assigned_ip) {
                (Some(sd), Some(ip)) => {
                    let tid = tid24((old(self).transaction_id + 1) as u32);
                    &&& *final(self) == (Dhcpv6Client {
                        transaction_id: tid,
                        state: Dhcpv6ClientState::Init,
                        assigned_ip: None,
                        delegated_prefix: None,
                        ..*old(self)
                    })
                    &&& r matches Some(b) && b@ == message_bytes(
                        DHCPV6_MSG_RELEASE,
                        tid,
                        seq![(DHCPV6_OPT_CLIENTID, duid_bytes(old(self).client_duid)), (DHCPV6_OPT_SERVERID, sd@)]
                            + seq![(DHCPV6_OPT_IA_NA, ia_data(1, 0, 0, iaaddr_sub(ip.0@, 0, 0)))],
                    )
                },
                _ => r is None && *final(self) == *old(self),
            },
    {
        let s_duid = match &self.server_duid {
            Some(sd) => to_vec(sd.as_slice()),
            None => return None,
        };
        let ip = match self.assigned_ip {
            Some(ip) => ip,
            None => return None,
        };
        let mut addresses: Vec<IaAddressOption> = Vec::new();
        addresses.push(IaAddressOption { address: ip, preferred_lifetime: 0, valid_lifetime: 0 });
        let ia_na = IaNaOption { iaid: 1, t1: 0, t2: 0, addresses };
        let client_bytes = self.client_duid.serialize();
        self.transaction_id = mask_tid(self.transaction_id + 1);
        let release = Dhcpv6Message::build_release(self.transaction_id, client_bytes.as_slice(), s_duid.as_slice(), Some(&ia_na), None);
        self.state = Dhcpv6ClientState::Init;
        self.assigned_ip = None;
        self.delegated_prefix = None;
        proof {
            assert(tid24(self.transaction_id) == self.transaction_id);
            let av = addr_views(ia_na.addresses@);
            assert(av =~= seq![(ip.0@, 0u32, 0u32)]);
            assert(av.drop_last() =~= Seq::<(Seq<u8>, u32, u32)>::empty());
            assert(na_subs(Seq::<(Seq<u8>, u32, u32)>::empty()) =~= Seq::<u8>::empty());
            assert(av.last() == (ip.0@, 0u32, 0u32));
            assert(na_subs(av) =~= iaaddr_sub(ip.0@, 0, 0));
        }
        Some(release.serialize())
    }
}

} // verus!
