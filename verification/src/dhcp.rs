//! Dynamic Host Configuration Protocol (RFC 2131): packet codec and a DORA server.
use vstd::prelude::*;
use crate::net::{Ipv4Address, MacAddress};
use crate::text::{dec_chars, decimal, join3, owned};
use crate::wire::{be32_at, lemma_u32_roundtrip, push_u32, read_u32, u32_bytes, zeros};

verus! {

pub const DHCP_SERVER_PORT: u16 = 67;
pub const DHCP_CLIENT_PORT: u16 = 68;

pub const DHCP_OP_BOOTREQUEST: u8 = 1;
pub const DHCP_OP_BOOTREPLY: u8 = 2;

pub const DHCP_MAGIC_COOKIE: [u8; 4] = [0x63, 0x82, 0x53, 0x63];

pub const DHCP_OPT_PAD: u8 = 0;
pub const DHCP_OPT_SUBNET_MASK: u8 = 1;
pub const DHCP_OPT_ROUTER: u8 = 3;
pub const DHCP_OPT_DNS: u8 = 6;
pub const DHCP_OPT_LEASE_TIME: u8 = 51;
pub const DHCP_OPT_MSG_TYPE: u8 = 53;
pub const DHCP_OPT_SERVER_ID: u8 = 54;
pub const DHCP_OPT_END: u8 = 255;

#[derive(Debug, Clone, Copy, PartialEq, Eq, Structural)]
pub enum DhcpMessageType {
    Discover,
    Offer,
    Request,
    Ack,
    Nak,
    Release,
    Unknown(u8),
}

pub open spec fn msg_type_of(val: u8) -> DhcpMessageType {
    match val {
        1 => DhcpMessageType::Discover,
        2 => DhcpMessageType::Offer,
        3 => DhcpMessageType::Request,
        5 => DhcpMessageType::Ack,
        6 => DhcpMessageType::Nak,
        7 => DhcpMessageType::Release,
        other => DhcpMessageType::Unknown(other),
    }
}

pub open spec fn msg_type_code(t: DhcpMessageType) -> u8 {
    match t {
        DhcpMessageType::Discover => 1,
        DhcpMessageType::Offer => 2,
        DhcpMessageType::Request => 3,
        DhcpMessageType::Ack => 5,
        DhcpMessageType::Nak => 6,
        DhcpMessageType::Release => 7,
        DhcpMessageType::Unknown(v) => v,
    }
}

impl DhcpMessageType {
    pub fn from_u8(val: u8) -> (r: Self)
        ensures
            r == msg_type_of(val),
    {
        match val {
            1 => DhcpMessageType::Discover,
            2 => DhcpMessageType::Offer,
            3 => DhcpMessageType::Request,
            5 => DhcpMessageType::Ack,
            6 => DhcpMessageType::Nak,
            7 => DhcpMessageType::Release,
            other => DhcpMessageType::Unknown(other),
        }
    }

    pub fn to_u8(&self) -> (r: u8)
        ensures
            r == msg_type_code(*self),
    {
        match self {
            DhcpMessageType::Discover => 1,
            DhcpMessageType::Offer => 2,
            DhcpMessageType::Request => 3,
            DhcpMessageType::Ack => 5,
            DhcpMessageType::Nak => 6,
            DhcpMessageType::Release => 7,
            DhcpMessageType::Unknown(v) => *v,
        }
    }
}

/// Law: decoding a message-type code gives back the type, for every type but `Unknown` of a
/// code that names a known type.
pub proof fn lemma_msg_type_roundtrip(t: DhcpMessageType)
    requires
        !(t matches DhcpMessageType::Unknown(v) && (v == 1 || v == 2 || v == 3 || v == 5 || v == 6
            || v == 7)),
    ensures
        msg_type_of(msg_type_code(t)) == t,
{
}

#[derive(Debug, Clone, Copy, PartialEq, Eq)]
pub struct DhcpPacket {
    pub op: u8,
    pub xid: u32,
    pub ciaddr: Ipv4Address,
    pub yiaddr: Ipv4Address,
    pub siaddr: Ipv4Address,
    pub chaddr: MacAddress,
    pub msg_type: DhcpMessageType,
    pub subnet_mask: Option<Ipv4Address>,
    pub router: Option<Ipv4Address>,
    pub dns: Option<Ipv4Address>,
    pub server_id: Option<Ipv4Address>,
    pub lease_time: Option<u32>,
}

#[derive(Debug, Clone, Copy, PartialEq, Eq, Structural)]
pub enum DhcpError {
    PacketTooShort(usize),
    InvalidMagicCookie,
    InvalidOptionLength,
}

impl DhcpMessageType {
    /// The human-readable name of the message type with its number.
    pub open spec fn description(self) -> Seq<char> {
        match self {
            DhcpMessageType::Discover => "DHCP Discover (1)"@,
            DhcpMessageType::Offer => "DHCP Offer (2)"@,
            DhcpMessageType::Request => "DHCP Request (3)"@,
            DhcpMessageType::Ack => "DHCP ACK (5)"@,
            DhcpMessageType::Nak => "DHCP NAK (6)"@,
            DhcpMessageType::Release => "DHCP Release (7)"@,
            DhcpMessageType::Unknown(v) => "DHCP Type ("@ + dec_chars(v as nat) + ")"@,
        }
    }

    /// Renders the message type as text.
    pub fn to_string(&self) -> (r: String)
        ensures
            r@ == self.description(),
    {
        match self {
            DhcpMessageType::Discover => owned("DHCP Discover (1)"),
            DhcpMessageType::Offer => owned("DHCP Offer (2)"),
            DhcpMessageType::Request => owned("DHCP Request (3)"),
            DhcpMessageType::Ack => owned("DHCP ACK (5)"),
            DhcpMessageType::Nak => owned("DHCP NAK (6)"),
            DhcpMessageType::Release => owned("DHCP Release (7)"),
            DhcpMessageType::Unknown(v) => join3("DHCP Type (", decimal(*v as u64).as_str(), ")"),
        }
    }
}

impl DhcpError {
    /// The human-readable description of the error.
    pub open spec fn description(self) -> Seq<char> {
        match self {
            DhcpError::PacketTooShort(l) => "DHCP packet too short ("@ + dec_chars(l as nat)
                + " bytes, min 240)"@,
            DhcpError::InvalidMagicCookie => "Invalid DHCP magic cookie"@,
            DhcpError::InvalidOptionLength => "Invalid DHCP option length"@,
        }
    }

    /// Renders the error as text.
    pub fn to_string(&self) -> (r: String)
        ensures
            r@ == self.description(),
    {
        match self {
            DhcpError::PacketTooShort(l) => join3(
                "DHCP packet too short (",
                decimal(*l as u64).as_str(),
                " bytes, min 240)",
            ),
            DhcpError::InvalidMagicCookie => owned("Invalid DHCP magic cookie"),
            DhcpError::InvalidOptionLength => owned("Invalid DHCP option length"),
        }
    }
}

/// The option values a packet carries.
#[derive(Clone, Copy)]
pub struct DhcpOptionValues {
    pub msg_type: DhcpMessageType,
    pub subnet_mask: Option<Ipv4Address>,
    pub router: Option<Ipv4Address>,
    pub dns: Option<Ipv4Address>,
    pub server_id: Option<Ipv4Address>,
    pub lease_time: Option<u32>,
}

/// The IPv4 address held by the four octets at `i`.
pub open spec fn ip_at(s: Seq<u8>, i: int) -> Ipv4Address {
    Ipv4Address([s[i], s[i + 1], s[i + 2], s[i + 3]])
}

/// The MAC address held by the six octets at `i`.
pub open spec fn mac_at(s: Seq<u8>, i: int) -> MacAddress {
    MacAddress([s[i], s[i + 1], s[i + 2], s[i + 3], s[i + 4], s[i + 5]])
}

/// The effect of one option on the values read so far; options of unknown code or of
/// unexpected length change nothing.
pub open spec fn apply_option(st: DhcpOptionValues, code: u8, val: Seq<u8>) -> DhcpOptionValues {
    if code == DHCP_OPT_MSG_TYPE && val.len() == 1 {
        DhcpOptionValues { msg_type: msg_type_of(val[0]), ..st }
    } else if code == DHCP_OPT_SUBNET_MASK && val.len() == 4 {
        DhcpOptionValues { subnet_mask: Some(ip_at(val, 0)), ..st }
    } else if code == DHCP_OPT_ROUTER && val.len() >= 4 {
        DhcpOptionValues { router: Some(ip_at(val, 0)), ..st }
    } else if code == DHCP_OPT_DNS && val.len() >= 4 {
        DhcpOptionValues { dns: Some(ip_at(val, 0)), ..st }
    } else if code == DHCP_OPT_SERVER_ID && val.len() == 4 {
        DhcpOptionValues { server_id: Some(ip_at(val, 0)), ..st }
    } else if code == DHCP_OPT_LEASE_TIME && val.len() == 4 {
        DhcpOptionValues { lease_time: Some(be32_at(val, 0) as u32), ..st }
    } else {
        st
    }
}

/// Reading the options from `off` on: pad octets are skipped, the end option or the end of
/// the packet stops, every other option is code, length, value.
pub open spec fn scan_options(data: Seq<u8>, off: int, st: DhcpOptionValues) -> Result<DhcpOptionValues, DhcpError>
    decreases data.len() - off,
{
    if off < 0 || off >= data.len() {
        Ok(st)
    } else if data[off] == DHCP_OPT_END {
        Ok(st)
    } else if data[off] == DHCP_OPT_PAD {
        scan_options(data, off + 1, st)
    } else if off + 1 >= data.len() {
        Err(DhcpError::InvalidOptionLength)
    } else {
        let len = data[off + 1] as int;
        if off + 2 + len > data.len() {
            Err(DhcpError::InvalidOptionLength)
        } else {
            scan_options(
                data,
                off + 2 + len,
                apply_option(st, data[off], data.subrange(off + 2, off + 2 + len)),
            )
        }
    }
}

pub open spec fn no_options() -> DhcpOptionValues {
    DhcpOptionValues {
        msg_type: DhcpMessageType::Unknown(0),
        subnet_mask: None,
        router: None,
        dns: None,
        server_id: None,
        lease_time: None,
    }
}

pub open spec fn magic_cookie() -> Seq<u8> {
    seq![0x63u8, 0x82u8, 0x53u8, 0x63u8]
}

/// Decoding of a packet.
pub open spec fn dhcp_parse(s: Seq<u8>) -> Result<DhcpPacket, DhcpError> {
    if s.len() < 240 {
        Err(DhcpError::PacketTooShort(s.len() as usize))
    } else if s.subrange(236, 240) != magic_cookie() {
        Err(DhcpError::InvalidMagicCookie)
    } else {
        match scan_options(s, 240, no_options()) {
            Err(e) => Err(e),
            Ok(o) => Ok(
                DhcpPacket {
                    op: s[0],
                    xid: be32_at(s, 4) as u32,
                    ciaddr: ip_at(s, 12),
                    yiaddr: ip_at(s, 16),
                    siaddr: ip_at(s, 20),
                    chaddr: mac_at(s, 28),
                    msg_type: o.msg_type,
                    subnet_mask: o.subnet_mask,
                    router: o.router,
                    dns: o.dns,
                    server_id: o.server_id,
                    lease_time: o.lease_time,
                },
            ),
        }
    }
}

pub open spec fn ip_option(code: u8, v: Option<Ipv4Address>) -> Seq<u8> {
    match v {
        Some(ip) => seq![code, 4u8] + ip.0@,
        None => Seq::empty(),
    }
}

/// The serialized packet: the fixed 236-octet BOOTP part (hardware type Ethernet, address
/// length 6), the magic cookie, message type, server identifier, subnet mask, router, DNS
/// server and lease time options where present, and the end option.
pub open spec fn dhcp_bytes(p: DhcpPacket) -> Seq<u8> {
    seq![p.op, 1u8, 6u8, 0u8] + u32_bytes(p.xid) + zeros(4) + p.ciaddr.0@ + p.yiaddr.0@
        + p.siaddr.0@ + zeros(4) + p.chaddr.0@ + zeros(202) + magic_cookie() + seq![
        DHCP_OPT_MSG_TYPE,
        1u8,
        msg_type_code(p.msg_type),
    ] + ip_option(DHCP_OPT_SERVER_ID, p.server_id) + ip_option(DHCP_OPT_SUBNET_MASK, p.subnet_mask)
        + ip_option(DHCP_OPT_ROUTER, p.router) + ip_option(DHCP_OPT_DNS, p.dns) + match p.lease_time {
        Some(lt) => seq![DHCP_OPT_LEASE_TIME, 4u8] + u32_bytes(lt),
        None => Seq::empty(),
    } + seq![DHCP_OPT_END]
}

fn ip_from(s: &[u8], i: usize) -> (r: Ipv4Address)
    requires
        i + 4 <= s@.len(),
    ensures
        r == ip_at(s@, i as int),
{
    Ipv4Address([s[i], s[i + 1], s[i + 2], s[i + 3]])
}

fn push_ip(buf: &mut Vec<u8>, ip: &Ipv4Address)
    ensures
        final(buf)@ == old(buf)@ + ip.0@,
{
    let ghost before = buf@;
    buf.push(ip.0[0]);
    buf.push(ip.0[1]);
    buf.push(ip.0[2]);
    buf.push(ip.0[3]);
    assert(buf@ =~= before + ip.0@);
}

fn push_zeros(buf: &mut Vec<u8>, n: usize)
    ensures
        final(buf)@ == old(buf)@ + zeros(n as nat),
{
    let ghost before = buf@;
    let mut i: usize = 0;
    while i < n
        invariant
            i <= n,
            buf@ == before + zeros(i as nat),
        decreases n - i,
    {
        buf.push(0);
        i = i + 1;
        assert(buf@ =~= before + zeros(i as nat));
    }
}

fn push_ip_option(buf: &mut Vec<u8>, code: u8, v: Option<Ipv4Address>)
    ensures
        final(buf)@ == old(buf)@ + ip_option(code, v),
{
    let ghost before = buf@;
    match v {
        Some(ip) => {
            buf.push(code);
            buf.push(4);
            push_ip(buf, &ip);
        },
        None => {},
    }
    assert(buf@ =~= before + ip_option(code, v));
}

impl DhcpPacket {
    pub fn parse(data: &[u8]) -> (r: Result<Self, DhcpError>)
        ensures
            r == dhcp_parse(data@),
    {
        if data.len() < 240 {
            return Err(DhcpError::PacketTooShort(data.len()));
        }
        let op = data[0];
        let xid = read_u32(data, 4);
        let ciaddr = ip_from(data, 12);
        let yiaddr = ip_from(data, 16);
        let siaddr = ip_from(data, 20);
        let chaddr = MacAddress([data[28], data[29], data[30], data[31], data[32], data[33]]);
        if !(data[236] == 0x63 && data[237] == 0x82 && data[238] == 0x53 && data[239] == 0x63) {
            proof {
                if data@.subrange(236, 240) == magic_cookie() {
                    assert(data@.subrange(236, 240)[0] == data@[236]);
                    assert(data@.subrange(236, 240)[1] == data@[237]);
                    assert(data@.subrange(236, 240)[2] == data@[238]);
                    assert(data@.subrange(236, 240)[3] == data@[239]);
                }
            }
            return Err(DhcpError::InvalidMagicCookie);
        }
        assert(data@.subrange(236, 240) =~= magic_cookie());
        let mut st = DhcpOptionValues {
            msg_type: DhcpMessageType::Unknown(0),
            subnet_mask: None,
            router: None,
            dns: None,
            server_id: None,
            lease_time: None,
        };
        let mut offset: usize = 240;
        while offset < data.len()
            invariant_except_break
                240 <= offset,
                data@.len() >= 240,
                data@.subrange(236, 240) == magic_cookie(),
                scan_options(data@, 240, no_options()) == scan_options(data@, offset as int, st),
            ensures
                scan_options(data@, 240, no_options()) == Ok::<DhcpOptionValues, DhcpError>(st),
            decreases data@.len() - offset,
        {
            let opt = data[offset];
            if opt == DHCP_OPT_END {
                break;
            }
            if opt == DHCP_OPT_PAD {
                offset = offset + 1;
                continue;
            }
            if offset + 1 >= data.len() {
                return Err(DhcpError::InvalidOptionLength);
            }
            let len = data[offset + 1] as usize;
            if len > data.len() - (offset + 2) {
                return Err(DhcpError::InvalidOptionLength);
            }
            let vs = offset + 2;
            let ghost val = data@.subrange(vs as int, vs + len);
            if opt == DHCP_OPT_MSG_TYPE && len == 1 {
                st.msg_type = DhcpMessageType::from_u8(data[vs]);
            } else if opt == DHCP_OPT_SUBNET_MASK && len == 4 {
                st.subnet_mask = Some(ip_from(data, vs));
            } else if opt == DHCP_OPT_ROUTER && len >= 4 {
                st.router = Some(ip_from(data, vs));
            } else if opt == DHCP_OPT_DNS && len >= 4 {
                st.dns = Some(ip_from(data, vs));
            } else if opt == DHCP_OPT_SERVER_ID && len == 4 {
                st.server_id = Some(ip_from(data, vs));
            } else if opt == DHCP_OPT_LEASE_TIME && len == 4 {
                st.lease_time = Some(read_u32(data, vs));
            }
            proof {
                if len >= 4 {
                    assert(val[0] == data@[vs as int] && val[1] == data@[vs + 1] && val[2] == data@[vs + 2] && val[3] == data@[vs + 3]);
                    assert(ip_at(val, 0) == ip_at(data@, vs as int));
                    assert(be32_at(val, 0) == be32_at(data@, vs as int));
                }
            }
            offset = vs + len;
        }
        Ok(
            DhcpPacket {
                op,
                xid,
                ciaddr,
                yiaddr,
                siaddr,
                chaddr,
                msg_type: st.msg_type,
                subnet_mask: st.subnet_mask,
                router: st.router,
                dns: st.dns,
                server_id: st.server_id,
                lease_time: st.lease_time,
            },
        )
    }

    pub fn serialize(&self) -> (r: Vec<u8>)
        ensures
            r@ == dhcp_bytes(*self),
    {
        let mut buf: Vec<u8> = Vec::new();
        buf.push(self.op);
        buf.push(1);
        buf.push(6);
        buf.push(0);
        push_u32(&mut buf, self.xid);
        push_zeros(&mut buf, 4);
        push_ip(&mut buf, &self.ciaddr);
        push_ip(&mut buf, &self.yiaddr);
        push_ip(&mut buf, &self.siaddr);
        push_zeros(&mut buf, 4);
        let ghost before = buf@;
        let mut i: usize = 0;
        while i < 6
            invariant
                i <= 6,
                buf@ == before + self.chaddr.0@.subrange(0, i as int),
            decreases 6 - i,
        {
            buf.push(self.chaddr.0[i]);
            i = i + 1;
            assert(buf@ =~= before + self.chaddr.0@.subrange(0, i as int));
        }
        assert(self.chaddr.0@.subrange(0, 6) =~= self.chaddr.0@);
        push_zeros(&mut buf, 202);
        buf.push(0x63);
        buf.push(0x82);
        buf.push(0x53);
        buf.push(0x63);
        buf.push(DHCP_OPT_MSG_TYPE);
        buf.push(1);
        buf.push(self.msg_type.to_u8());
        push_ip_option(&mut buf, DHCP_OPT_SERVER_ID, self.server_id);
        push_ip_option(&mut buf, DHCP_OPT_SUBNET_MASK, self.subnet_mask);
        push_ip_option(&mut buf, DHCP_OPT_ROUTER, self.router);
        push_ip_option(&mut buf, DHCP_OPT_DNS, self.dns);
        match self.lease_time {
            Some(lt) => {
                buf.push(DHCP_OPT_LEASE_TIME);
                buf.push(4);
                push_u32(&mut buf, lt);
            },
            None => {},
        }
        buf.push(DHCP_OPT_END);
        assert(buf@ =~= dhcp_bytes(*self));
        buf
    }

    pub fn build_discover(chaddr: MacAddress, xid: u32) -> (r: Self)
        ensures
            r == (DhcpPacket {
                op: DHCP_OP_BOOTREQUEST,
                xid,
                ciaddr: Ipv4Address([0u8, 0u8, 0u8, 0u8]),
                yiaddr: Ipv4Address([0u8, 0u8, 0u8, 0u8]),
                siaddr: Ipv4Address([0u8, 0u8, 0u8, 0u8]),
                chaddr,
                msg_type: DhcpMessageType::Discover,
                subnet_mask: None,
                router: None,
                dns: None,
                server_id: None,
                lease_time: None,
            }),
    {
        DhcpPacket {
            op: DHCP_OP_BOOTREQUEST,
            xid,
            ciaddr: Ipv4Address([0, 0, 0, 0]),
            yiaddr: Ipv4Address([0, 0, 0, 0]),
            siaddr: Ipv4Address([0, 0, 0, 0]),
            chaddr,
            msg_type: DhcpMessageType::Discover,
            subnet_mask: None,
            router: None,
            dns: None,
            server_id: None,
            lease_time: None,
        }
    }

    pub fn build_offer(
        chaddr: MacAddress,
        xid: u32,
        offered_ip: Ipv4Address,
        server_ip: Ipv4Address,
        subnet_mask: Ipv4Address,
        router: Ipv4Address,
        dns: Ipv4Address,
        lease_secs: u32,
    ) -> (r: Self)
        ensures
            r == reply_packet(DhcpMessageType::Offer, chaddr, xid, offered_ip, server_ip, subnet_mask, router, dns, lease_secs),
    {
        DhcpPacket {
            op: DHCP_OP_BOOTREPLY,
            xid,
            ciaddr: Ipv4Address([0, 0, 0, 0]),
            yiaddr: offered_ip,
            siaddr: server_ip,
            chaddr,
            msg_type: DhcpMessageType::Offer,
            subnet_mask: Some(subnet_mask),
            router: Some(router),
            dns: Some(dns),
            server_id: Some(server_ip),
            lease_time: Some(lease_secs),
        }
    }

    pub fn build_request(
        chaddr: MacAddress,
        xid: u32,
        requested_ip: Ipv4Address,
        server_id: Ipv4Address,
    ) -> (r: Self)
        ensures
            r == (DhcpPacket {
                op: DHCP_OP_BOOTREQUEST,
                xid,
                ciaddr: Ipv4Address([0u8, 0u8, 0u8, 0u8]),
                yiaddr: requested_ip,
                siaddr: server_id,
                chaddr,
                msg_type: DhcpMessageType::Request,
                subnet_mask: None,
                router: None,
                dns: None,
                server_id: Some(server_id),
                lease_time: None,
            }),
    {
        DhcpPacket {
            op: DHCP_OP_BOOTREQUEST,
            xid,
            ciaddr: Ipv4Address([0, 0, 0, 0]),
            yiaddr: requested_ip,
            siaddr: server_id,
            chaddr,
            msg_type: DhcpMessageType::Request,
            subnet_mask: None,
            router: None,
            dns: None,
            server_id: Some(server_id),
            lease_time: None,
        }
    }

    pub fn build_ack(
        chaddr: MacAddress,
        xid: u32,
        assigned_ip: Ipv4Address,
        server_ip: Ipv4Address,
        subnet_mask: Ipv4Address,
        router: Ipv4Address,
        dns: Ipv4Address,
        lease_secs: u32,
    ) -> (r: Self)
        ensures
            r == reply_packet(DhcpMessageType::Ack, chaddr, xid, assigned_ip, server_ip, subnet_mask, router, dns, lease_secs),
    {
        DhcpPacket {
            op: DHCP_OP_BOOTREPLY,
            xid,
            ciaddr: Ipv4Address([0, 0, 0, 0]),
            yiaddr: assigned_ip,
            siaddr: server_ip,
            chaddr,
            msg_type: DhcpMessageType::Ack,
            subnet_mask: Some(subnet_mask),
            router: Some(router),
            dns: Some(dns),
            server_id: Some(server_ip),
            lease_time: Some(lease_secs),
        }
    }
}

/// A server reply (offer or acknowledgement) for `yiaddr` with the full option set.
pub open spec fn reply_packet(
    t: DhcpMessageType,
    chaddr: MacAddress,
    xid: u32,
    yiaddr: Ipv4Address,
    server_ip: Ipv4Address,
    subnet_mask: Ipv4Address,
    router: Ipv4Address,
    dns: Ipv4Address,
    lease_secs: u32,
) -> DhcpPacket {
    DhcpPacket {
        op: DHCP_OP_BOOTREPLY,
        xid,
        ciaddr: Ipv4Address([0u8, 0u8, 0u8, 0u8]),
        yiaddr,
        siaddr: server_ip,
        chaddr,
        msg_type: t,
        subnet_mask: Some(subnet_mask),
        router: Some(router),
        dns: Some(dns),
        server_id: Some(server_ip),
        lease_time: Some(lease_secs),
    }
}

} // verus!

verus! {

/// Whether no two leases name the same hardware address.
pub open spec fn leases_unique(s: Seq<(MacAddress, Ipv4Address)>) -> bool {
    forall|i: int, j: int| 0 <= i < j < s.len() ==> s[i].0.0@ != s[j].0.0@
}

/// The leases as a map from hardware address (its octets) to leased address.
pub open spec fn leases_view(s: Seq<(MacAddress, Ipv4Address)>) -> Map<Seq<u8>, Ipv4Address> {
    Map::new(
        |k: Seq<u8>| exists|i: int| 0 <= i < s.len() && s[i].0.0@ == k,
        |k: Seq<u8>| s[choose|i: int| 0 <= i < s.len() && s[i].0.0@ == k].1,
    )
}

proof fn lemma_leases_view_index(s: Seq<(MacAddress, Ipv4Address)>, i: int)
    requires
        leases_unique(s),
        0 <= i < s.len(),
    ensures
        leases_view(s).contains_key(s[i].0.0@),
        leases_view(s)[s[i].0.0@] == s[i].1,
{
    let k = s[i].0.0@;
    assert(exists|j: int| 0 <= j < s.len() && s[j].0.0@ == k);
    let c = choose|j: int| 0 <= j < s.len() && s[j].0.0@ == k;
    if c != i {
        if c < i {
            assert(s[c].0.0@ != s[i].0.0@);
        } else {
            assert(s[i].0.0@ != s[c].0.0@);
        }
    }
}

/// Dynamic Host Configuration Protocol server with an address pool and a lease table.
#[derive(Debug, Clone)]
pub struct DhcpServer {
    pub server_ip: Ipv4Address,
    pub subnet_mask: Ipv4Address,
    pub router: Ipv4Address,
    pub dns: Ipv4Address,
    pub start_ip: Ipv4Address,
    pub end_ip: Ipv4Address,
    pub next_alloc_u32: u32,
    pub lease_time_secs: u32,
    pub leases: Vec<(MacAddress, Ipv4Address)>,
}

impl DhcpServer {
    pub open spec fn wf(&self) -> bool {
        leases_unique(self.leases@)
    }

    pub open spec fn lease_map(&self) -> Map<Seq<u8>, Ipv4Address> {
        leases_view(self.leases@)
    }

    pub fn new(
        server_ip: Ipv4Address,
        subnet_mask: Ipv4Address,
        router: Ipv4Address,
        dns: Ipv4Address,
        start_ip: Ipv4Address,
        end_ip: Ipv4Address,
        lease_time_secs: u32,
    ) -> (r: Self)
        ensures
            r.wf(),
            r.server_ip == server_ip && r.subnet_mask == subnet_mask && r.router == router && r.dns
                == dns && r.start_ip == start_ip && r.end_ip == end_ip,
            r.next_alloc_u32 == start_ip.value(),
            r.lease_time_secs == lease_time_secs,
            r.lease_map() == Map::<Seq<u8>, Ipv4Address>::empty(),
    {
        let next_alloc_u32 = start_ip.to_u32();
        let r = DhcpServer {
            server_ip,
            subnet_mask,
            router,
            dns,
            start_ip,
            end_ip,
            next_alloc_u32,
            lease_time_secs,
            leases: Vec::new(),
        };
        assert(r.lease_map() =~= Map::<Seq<u8>, Ipv4Address>::empty());
        r
    }

    fn find_lease(&self, mac: &MacAddress) -> (r: Option<usize>)
        requires
            self.wf(),
        ensures
            match r {
                Some(i) => i < self.leases@.len() && self.leases@[i as int].0.0@ == mac.0@,
                None => !self.lease_map().contains_key(mac.0@),
            },
    {
        let mut i: usize = 0;
        while i < self.leases.len()
            invariant
                i <= self.leases@.len(),
                forall|j: int| 0 <= j < i ==> self.leases@[j].0.0@ != mac.0@,
            decreases self.leases@.len() - i,
        {
            if self.leases[i].0 == *mac {
                return Some(i);
            }
            i = i + 1;
        }
        None
    }

    /// Records that `mac` holds `ip`, replacing any earlier lease of `mac`.
    fn set_lease(&mut self, mac: MacAddress, ip: Ipv4Address)
        requires
            old(self).wf(),
        ensures
            final(self).wf(),
            final(self).lease_map() == old(self).lease_map().insert(mac.0@, ip),
            final(self).next_alloc_u32 == old(self).next_alloc_u32,
            final(self).server_ip == old(self).server_ip && final(self).subnet_mask == old(
                self,
            ).subnet_mask && final(self).router == old(self).router && final(self).dns == old(
                self,
            ).dns && final(self).start_ip == old(self).start_ip && final(self).end_ip == old(
                self,
            ).end_ip && final(self).lease_time_secs == old(self).lease_time_secs,
    {
        let ghost s0 = self.leases@;
        match self.find_lease(&mac) {
            Some(i) => {
                self.leases.set(i, (mac, ip));
                proof {
                    let s1 = self.leases@;
                    assert(s1 == s0.update(i as int, (mac, ip)));
                    assert forall|a: int, b: int| 0 <= a < b < s1.len() implies s1[a].0.0@
                        != s1[b].0.0@ by {
                        assert(s0[a].0.0@ != s0[b].0.0@);
                    }
                    assert forall|k: Seq<u8>| #[trigger] leases_view(s1).contains_key(k) == leases_view(s0).insert(mac.0@, ip).contains_key(k) by {
                        if exists|j: int| 0 <= j < s0.len() && s0[j].0.0@ == k {
                            let j = choose|j: int| 0 <= j < s0.len() && s0[j].0.0@ == k;
                            assert(s1[j].0.0@ == k);
                        }
                        if exists|j: int| 0 <= j < s1.len() && s1[j].0.0@ == k {
                            let j = choose|j: int| 0 <= j < s1.len() && s1[j].0.0@ == k;
                            if j != i {
                                assert(s0[j].0.0@ == k);
                            }
                        }
                    }
                    assert forall|k: Seq<u8>| #[trigger] leases_view(s1).contains_key(k) implies leases_view(s1)[k] == leases_view(s0).insert(mac.0@, ip)[k] by {
                        let j = choose|j: int| 0 <= j < s1.len() && s1[j].0.0@ == k;
                        lemma_leases_view_index(s1, j);
                        if j != i {
                            lemma_leases_view_index(s0, j);
                        }
                    }
                    assert(leases_view(s1) =~= leases_view(s0).insert(mac.0@, ip));
                }
            },
            None => {
                self.leases.push((mac, ip));
                proof {
                    let s1 = self.leases@;
                    let n = s0.len() as int;
                    assert forall|a: int, b: int| 0 <= a < b < s1.len() implies s1[a].0.0@
                        != s1[b].0.0@ by {
                        if b == n {
                            if s1[a].0.0@ == mac.0@ {
                                assert(leases_view(s0).contains_key(s0[a].0.0@));
                            }
                        } else {
                            assert(s0[a].0.0@ != s0[b].0.0@);
                        }
                    }
                    assert forall|k: Seq<u8>| #[trigger] leases_view(s1).contains_key(k) == leases_view(s0).insert(mac.0@, ip).contains_key(k) by {
                        if exists|j: int| 0 <= j < s0.len() && s0[j].0.0@ == k {
                            let j = choose|j: int| 0 <= j < s0.len() && s0[j].0.0@ == k;
                            assert(s1[j].0.0@ == k);
                        }
                        if k == mac.0@ {
                            assert(s1[n].0.0@ == k);
                        }
                        if exists|j: int| 0 <= j < s1.len() && s1[j].0.0@ == k {
                            let j = choose|j: int| 0 <= j < s1.len() && s1[j].0.0@ == k;
                            if j != n {
                                assert(s0[j].0.0@ == k);
                            }
                        }
                    }
                    assert forall|k: Seq<u8>| #[trigger] leases_view(s1).contains_key(k) implies leases_view(s1)[k] == leases_view(s0).insert(mac.0@, ip)[k] by {
                        let j = choose|j: int| 0 <= j < s1.len() && s1[j].0.0@ == k;
                        lemma_leases_view_index(s1, j);
                        if j != n {
                            lemma_leases_view_index(s0, j);
                        }
                    }
                    assert(leases_view(s1) =~= leases_view(s0).insert(mac.0@, ip));
                }
            },
        }
    }

    /// The address for `mac`: its current lease, or else the next address of the pool, which
    /// becomes its lease; the pool pointer advances until it reaches the end address.
    fn allocate_ip(&mut self, mac: MacAddress) -> (r: Ipv4Address)
        requires
            old(self).wf(),
        ensures
            final(self).wf(),
            old(self).lease_map().contains_key(mac.0@) ==> r == old(self).lease_map()[mac.0@]
                && final(self).lease_map() == old(self).lease_map() && final(self).next_alloc_u32
                == old(self).next_alloc_u32,
            !old(self).lease_map().contains_key(mac.0@) ==> r.value() == old(self).next_alloc_u32
                && final(self).lease_map() == old(self).lease_map().insert(mac.0@, r)
                && final(self).next_alloc_u32 == (if old(self).next_alloc_u32 < old(self).end_ip.value() {
                    old(self).next_alloc_u32 + 1
                } else {
                    old(self).next_alloc_u32 as int
                }),
            final(self).server_ip == old(self).server_ip && final(self).subnet_mask == old(
                self,
            ).subnet_mask && final(self).router == old(self).router && final(self).dns == old(
                self,
            ).dns && final(self).start_ip == old(self).start_ip && final(self).end_ip == old(
                self,
            ).end_ip && final(self).lease_time_secs == old(self).lease_time_secs,
    {
        match self.find_lease(&mac) {
            Some(i) => {
                proof {
                    lemma_leases_view_index(self.leases@, i as int);
                }
                return self.leases[i].1;
            },
            None => {},
        }
        let allocated = Ipv4Address::from_u32(self.next_alloc_u32);
        if self.next_alloc_u32 < self.end_ip.to_u32() {
            self.next_alloc_u32 = self.next_alloc_u32 + 1;
        }
        self.set_lease(mac, allocated);
        allocated
    }

    /// The address `ip` is what the server gives `mac` from the pool, going from `self` to
    /// `next`: its current lease, with the leases and the pool pointer unchanged; or else
    /// the pool's next address, which becomes its lease, the pointer moving on by one until
    /// it reaches the end address.
    pub open spec fn allocates(self, next: DhcpServer, mac: Seq<u8>, ip: Ipv4Address) -> bool {
        if self.lease_map().contains_key(mac) {
            &&& ip == self.lease_map()[mac]
            &&& next.lease_map() == self.lease_map()
            &&& next.next_alloc_u32 == self.next_alloc_u32
        } else {
            &&& ip.value() == self.next_alloc_u32
            &&& next.lease_map() == self.lease_map().insert(mac, ip)
            &&& next.next_alloc_u32 == (if self.next_alloc_u32 < self.end_ip.value() {
                self.next_alloc_u32 + 1
            } else {
                self.next_alloc_u32 as int
            })
        }
    }

    /// Answers a Discover with an Offer of `allocate_ip`'s address and a Request with an Ack
    /// of the requested address (or of an allocated one when the request names 0.0.0.0),
    /// which becomes the client's lease; any other message gets no answer.
    pub fn handle_packet(&mut self, pkt: &DhcpPacket) -> (r: Option<DhcpPacket>)
        requires
            old(self).wf(),
        ensures
            final(self).wf(),
            final(self).server_ip == old(self).server_ip && final(self).subnet_mask == old(
                self,
            ).subnet_mask && final(self).router == old(self).router && final(self).dns == old(
                self,
            ).dns && final(self).start_ip == old(self).start_ip && final(self).end_ip == old(
                self,
            ).end_ip && final(self).lease_time_secs == old(self).lease_time_secs,
            match pkt.msg_type {
                DhcpMessageType::Discover => r matches Some(p) && p == reply_packet(
                    DhcpMessageType::Offer,
                    pkt.chaddr,
                    pkt.xid,
                    p.yiaddr,
                    old(self).server_ip,
                    old(self).subnet_mask,
                    old(self).router,
                    old(self).dns,
                    old(self).lease_time_secs,
                ) && final(self).lease_map().contains_key(pkt.chaddr.0@) && final(self).lease_map()[pkt.chaddr.0@] == p.yiaddr
                    && old(self).allocates(*final(self), pkt.chaddr.0@, p.yiaddr),
                DhcpMessageType::Request => r matches Some(p) && p == reply_packet(
                    DhcpMessageType::Ack,
                    pkt.chaddr,
                    pkt.xid,
                    p.yiaddr,
                    old(self).server_ip,
                    old(self).subnet_mask,
                    old(self).router,
                    old(self).dns,
                    old(self).lease_time_secs,
                ) && final(self).lease_map().contains_key(pkt.chaddr.0@) && final(self).lease_map()[pkt.chaddr.0@] == p.yiaddr
                    && (pkt.yiaddr.0@ != seq![0u8, 0u8, 0u8, 0u8] ==> p.yiaddr == pkt.yiaddr
                        && final(self).lease_map() == old(self).lease_map().insert(pkt.chaddr.0@, pkt.yiaddr)
                        && final(self).next_alloc_u32 == old(self).next_alloc_u32)
                    && (pkt.yiaddr.0@ == seq![0u8, 0u8, 0u8, 0u8] ==> old(self).allocates(*final(self), pkt.chaddr.0@, p.yiaddr)),
                _ => r is None && final(self).lease_map() == old(self).lease_map() && final(self).next_alloc_u32 == old(self).next_alloc_u32,
            },
    {
        match pkt.msg_type {
            DhcpMessageType::Discover => {
                let offered_ip = self.allocate_ip(pkt.chaddr);
                Some(
                    DhcpPacket::build_offer(
                        pkt.chaddr,
                        pkt.xid,
                        offered_ip,
                        self.server_ip,
                        self.subnet_mask,
                        self.router,
                        self.dns,
                        self.lease_time_secs,
                    ),
                )
            },
            DhcpMessageType::Request => {
                let unspecified = Ipv4Address::unspecified();
                let assigned_ip = if pkt.yiaddr != unspecified {
                    pkt.yiaddr
                } else {
                    self.allocate_ip(pkt.chaddr)
                };
                let ghost mid = self.lease_map();
                self.set_lease(pkt.chaddr, assigned_ip);
                proof {
                    if pkt.yiaddr.0@ == seq![0u8, 0u8, 0u8, 0u8] {
                        assert(self.lease_map() =~= mid);
                    }
                }
                Some(
                    DhcpPacket::build_ack(
                        pkt.chaddr,
                        pkt.xid,
                        assigned_ip,
                        self.server_ip,
                        self.subnet_mask,
                        self.router,
                        self.dns,
                        self.lease_time_secs,
                    ),
                )
            },
            _ => None,
        }
    }
}

} // verus!
