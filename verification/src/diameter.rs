//! Diameter base protocol (RFC 6733): header, AVP and message codec, and a base server.
use vstd::prelude::*;
use vstd::slice::slice_subrange;
use vstd::string::*;
use crate::net::Ipv4Address;
use crate::text::{concat, dec_chars, decimal, join3, owned, string_from_utf8};
use crate::wire::{
    be24_at, be32_at, copy_range, to_vec, lemma_u24_roundtrip, lemma_u32_roundtrip, push_all, push_u24,
    push_u32, read_u24, read_u32, u24_bytes, u32_bytes, zeros,
};
use vstd::utf8::{decode_utf8, encode_utf8, valid_utf8};

verus! {

pub const DIAMETER_PORT: u16 = 3868;
pub const DIAMETER_VERSION_1: u8 = 1;

pub const DIAMETER_FLAG_REQUEST: u8 = 0x80;
pub const DIAMETER_FLAG_PROXIABLE: u8 = 0x40;
pub const DIAMETER_FLAG_ERROR: u8 = 0x20;
pub const DIAMETER_FLAG_RETRANSMITTED: u8 = 0x10;

pub const DIAMETER_FLAG_VENDOR_SPECIFIC: u8 = 0x80;
pub const DIAMETER_FLAG_MANDATORY: u8 = 0x40;

pub const DIAMETER_CMD_CAPABILITIES_EXCHANGE: u32 = 257;
pub const DIAMETER_CMD_DEVICE_WATCHDOG: u32 = 280;
pub const DIAMETER_CMD_ACCOUNTING: u32 = 271;

pub const DIAMETER_AVP_HOST_IP_ADDRESS: u32 = 257;
pub const DIAMETER_AVP_AUTH_APPLICATION_ID: u32 = 258;
pub const DIAMETER_AVP_ORIGIN_HOST: u32 = 264;
pub const DIAMETER_AVP_VENDOR_ID: u32 = 266;
pub const DIAMETER_AVP_RESULT_CODE: u32 = 268;
pub const DIAMETER_AVP_PRODUCT_NAME: u32 = 269;
pub const DIAMETER_AVP_ORIGIN_REALM: u32 = 296;

pub const DIAMETER_SUCCESS: u32 = 2001;
pub const DIAMETER_COMMAND_UNSUPPORTED: u32 = 3001;

#[derive(Debug, Clone, Copy, PartialEq, Eq, Structural)]
pub struct DiameterHeader {
    pub version: u8,
    pub length: u32,
    pub flags: u8,
    pub command_code: u32,
    pub application_id: u32,
    pub hop_by_hop_id: u32,
    pub end_to_end_id: u32,
}

impl DiameterHeader {
    pub fn is_request(&self) -> (r: bool)
        ensures
            r == (self.flags & DIAMETER_FLAG_REQUEST != 0),
    {
        (self.flags & DIAMETER_FLAG_REQUEST) != 0
    }
}

#[derive(Debug, Clone, PartialEq, Eq)]
pub struct DiameterAvp {
    pub code: u32,
    pub flags: u8,
    pub vendor_id: Option<u32>,
    pub data: Vec<u8>,
}

/// The mathematical content of an AVP.
pub struct AvpModel {
    pub code: u32,
    pub flags: u8,
    pub vendor_id: Option<u32>,
    pub data: Seq<u8>,
}

impl View for DiameterAvp {
    type V = AvpModel;

    open spec fn view(&self) -> AvpModel {
        AvpModel { code: self.code, flags: self.flags, vendor_id: self.vendor_id, data: self.data@ }
    }
}

#[derive(Debug, Clone, PartialEq, Eq)]
pub struct DiameterMessage {
    pub header: DiameterHeader,
    pub avps: Vec<DiameterAvp>,
}

/// The mathematical content of a message.
pub struct MessageModel {
    pub header: DiameterHeader,
    pub avps: Seq<AvpModel>,
}

/// The models of a sequence of AVPs.
pub open spec fn avp_models(avps: Seq<DiameterAvp>) -> Seq<AvpModel> {
    avps.map_values(|a: DiameterAvp| a@)
}

impl View for DiameterMessage {
    type V = MessageModel;

    open spec fn view(&self) -> MessageModel {
        MessageModel { header: self.header, avps: avp_models(self.avps@) }
    }
}

#[derive(Debug, Clone, Copy, PartialEq, Eq, Structural)]
pub enum DiameterError {
    PacketTooShort(usize),
    UnsupportedVersion(u8),
    InvalidLength,
}

impl DiameterError {
    /// The human-readable description of the error.
    pub open spec fn description(self) -> Seq<char> {
        match self {
            DiameterError::PacketTooShort(l) => "Diameter message too short ("@ + dec_chars(
                l as nat,
            ) + " bytes)"@,
            DiameterError::UnsupportedVersion(v) => "Unsupported Diameter version: "@ + dec_chars(
                v as nat,
            ),
            DiameterError::InvalidLength => "Invalid Diameter message length"@,
        }
    }

    /// Renders the error as text.
    pub fn to_string(&self) -> (r: String)
        ensures
            r@ == self.description(),
    {
        match self {
            DiameterError::PacketTooShort(l) => join3(
                "Diameter message too short (",
                decimal(*l as u64).as_str(),
                " bytes)",
            ),
            DiameterError::UnsupportedVersion(v) => concat(
                "Unsupported Diameter version: ",
                decimal(*v as u64).as_str(),
            ),
            DiameterError::InvalidLength => owned("Invalid Diameter message length"),
        }
    }
}

// ---------------------------------------------------------------------------
// Wire format of an AVP
// ---------------------------------------------------------------------------

/// Length of the AVP header: eight octets, twelve with a Vendor-ID.
pub open spec fn avp_header_len(a: AvpModel) -> int {
    if a.vendor_id is Some {
        12
    } else {
        8
    }
}

/// The flags octet as written: the V bit is set whenever a Vendor-ID is present.
pub open spec fn avp_wire_flags(a: AvpModel) -> u8 {
    if a.vendor_id is Some {
        a.flags | DIAMETER_FLAG_VENDOR_SPECIFIC
    } else {
        a.flags
    }
}

/// Number of zero octets that pad `n` octets to a multiple of four.
pub open spec fn pad4(n: int) -> nat {
    ((4 - n % 4) % 4) as nat
}

/// The AVP's octets before padding: code, flags, 24-bit length, optional Vendor-ID, data.
pub open spec fn avp_unpadded(a: AvpModel) -> Seq<u8> {
    u32_bytes(a.code) + seq![avp_wire_flags(a)] + u24_bytes(
        ((avp_header_len(a) + a.data.len()) % 0x1_0000_0000) as u32,
    ) + match a.vendor_id {
        Some(v) => u32_bytes(v),
        None => Seq::<u8>::empty(),
    } + a.data
}

/// The serialized AVP: its octets padded with zeros to a 32-bit boundary.
#[verifier::opaque]
pub open spec fn avp_bytes(a: AvpModel) -> Seq<u8> {
    avp_unpadded(a) + zeros(pad4(avp_unpadded(a).len() as int))
}

/// Decoding of one AVP at the front of `s`: the AVP and the octets it takes, padding included.
pub open spec fn avp_parse(s: Seq<u8>) -> Option<(AvpModel, int)> {
    if s.len() < 8 {
        None
    } else {
        let flags = s[4];
        let length = be24_at(s, 5);
        let has_vendor = flags & DIAMETER_FLAG_VENDOR_SPECIFIC != 0;
        if length < 8 || length > s.len() {
            None
        } else if has_vendor && length < 12 {
            None
        } else {
            let start: int = if has_vendor {
                12
            } else {
                8
            };
            let padded = (length + 3) / 4 * 4;
            if padded > s.len() {
                None
            } else {
                Some(
                    (
                        AvpModel {
                            code: be32_at(s, 0) as u32,
                            flags,
                            vendor_id: if has_vendor {
                                Some(be32_at(s, 8) as u32)
                            } else {
                                None
                            },
                            data: s.subrange(start, length),
                        },
                        padded,
                    ),
                )
            }
        }
    }
}

/// Decoding of a whole run of AVPs; `None` when any of them is malformed.
pub open spec fn avps_parse(s: Seq<u8>) -> Option<Seq<AvpModel>>
    decreases s.len(),
{
    if s.len() == 0 {
        Some(Seq::empty())
    } else {
        match avp_parse(s) {
            None => None,
            Some((a, n)) => if n <= 0 || n > s.len() {
                None
            } else {
                match avps_parse(s.skip(n)) {
                    Some(rest) => Some(seq![a] + rest),
                    None => None,
                }
            },
        }
    }
}

/// Decoding of the AVPs at the front of `s` up to the first that is malformed.
pub open spec fn avps_parse_prefix(s: Seq<u8>) -> Seq<AvpModel>
    decreases s.len(),
{
    if s.len() == 0 {
        Seq::empty()
    } else {
        match avp_parse(s) {
            None => Seq::empty(),
            Some((a, n)) => if n <= 0 || n > s.len() {
                Seq::empty()
            } else {
                seq![a] + avps_parse_prefix(s.skip(n))
            },
        }
    }
}

/// The concatenated serializations of `avps`.
pub open spec fn avps_bytes(avps: Seq<AvpModel>) -> Seq<u8>
    decreases avps.len(),
{
    if avps.len() == 0 {
        Seq::empty()
    } else {
        avp_bytes(avps[0]) + avps_bytes(avps.skip(1))
    }
}

proof fn lemma_avps_bytes_push(s: Seq<AvpModel>, x: AvpModel)
    ensures
        avps_bytes(s.push(x)) == avps_bytes(s) + avp_bytes(x),
    decreases s.len(),
{
    if s.len() == 0 {
        assert(s.push(x).skip(1) =~= Seq::<AvpModel>::empty());
        assert(s.push(x)[0] == x);
        assert(avps_bytes(s.push(x)) == avp_bytes(x) + avps_bytes(Seq::<AvpModel>::empty()));
        assert(avps_bytes(s.push(x)) =~= avps_bytes(s) + avp_bytes(x));
    } else {
        lemma_avps_bytes_push(s.skip(1), x);
        assert(s.push(x).skip(1) =~= s.skip(1).push(x));
        assert(s.push(x)[0] == s[0]);
        assert(avps_bytes(s.push(x)) == avp_bytes(s[0]) + avps_bytes(s.skip(1).push(x)));
        assert(avps_bytes(s) == avp_bytes(s[0]) + avps_bytes(s.skip(1)));
        assert(avps_bytes(s.push(x)) =~= avps_bytes(s) + avp_bytes(x));
    }
}

/// The first AVP with the given code.
pub open spec fn find_avp(avps: Seq<AvpModel>, code: u32) -> Option<AvpModel>
    decreases avps.len(),
{
    if avps.len() == 0 {
        None
    } else if avps[0].code == code {
        Some(avps[0])
    } else {
        find_avp(avps.skip(1), code)
    }
}

// ---------------------------------------------------------------------------
// Wire format of a message
// ---------------------------------------------------------------------------

/// The serialized message: 20-octet header followed by the AVPs; the length field holds the
/// total length.
pub open spec fn message_bytes(m: MessageModel) -> Seq<u8> {
    let body = avps_bytes(m.avps);
    seq![m.header.version] + u24_bytes(((20 + body.len()) % 0x1_0000_0000) as u32) + seq![
        m.header.flags,
    ] + u24_bytes(m.header.command_code) + u32_bytes(m.header.application_id) + u32_bytes(
        m.header.hop_by_hop_id,
    ) + u32_bytes(m.header.end_to_end_id) + body
}

/// Decoding of a message.
pub open spec fn message_parse(s: Seq<u8>) -> Result<MessageModel, DiameterError> {
    if s.len() < 20 {
        Err(DiameterError::PacketTooShort(s.len() as usize))
    } else if s[0] != DIAMETER_VERSION_1 {
        Err(DiameterError::UnsupportedVersion(s[0]))
    } else {
        let length = be24_at(s, 1);
        if length < 20 || length > s.len() {
            Err(DiameterError::InvalidLength)
        } else {
            match avps_parse(s.subrange(20, length)) {
                None => Err(DiameterError::InvalidLength),
                Some(avps) => Ok(
                    MessageModel {
                        header: DiameterHeader {
                            version: s[0],
                            length: length as u32,
                            flags: s[4],
                            command_code: be24_at(s, 5) as u32,
                            application_id: be32_at(s, 8) as u32,
                            hop_by_hop_id: be32_at(s, 12) as u32,
                            end_to_end_id: be32_at(s, 16) as u32,
                        },
                        avps,
                    },
                ),
            }
        }
    }
}

/// An AVP that the codec carries unchanged: its V bit agrees with the Vendor-ID and its
/// length fits the 24-bit length field.
pub open spec fn avp_wf(a: AvpModel) -> bool {
    &&& (a.flags & DIAMETER_FLAG_VENDOR_SPECIFIC != 0) == (a.vendor_id is Some)
    &&& avp_header_len(a) + a.data.len() < 0x100_0000
}

fn clone_bytes(v: &Vec<u8>) -> (r: Vec<u8>)
    ensures
        r@ == v@,
{
    let r = copy_range(v.as_slice(), 0, v.len());
    assert(v@.subrange(0, v@.len() as int) =~= v@);
    r
}

impl DiameterAvp {
    /// A copy of this AVP.
    pub fn copy(&self) -> (r: Self)
        ensures
            r@ == self@,
    {
        DiameterAvp {
            code: self.code,
            flags: self.flags,
            vendor_id: self.vendor_id,
            data: clone_bytes(&self.data),
        }
    }

    pub fn new(code: u32, data: &[u8]) -> (r: Self)
        ensures
            r@ == (AvpModel { code, flags: DIAMETER_FLAG_MANDATORY, vendor_id: None, data: data@ }),
    {
        DiameterAvp { code, flags: 0x40, vendor_id: None, data: to_vec(data) }
    }

    pub fn new_with_flags(code: u32, flags: u8, data: Vec<u8>) -> (r: Self)
        ensures
            r@ == (AvpModel { code, flags, vendor_id: None, data: data@ }),
    {
        DiameterAvp { code, flags, vendor_id: None, data }
    }

    pub fn new_u32(code: u32, val: u32) -> (r: Self)
        ensures
            r@ == (AvpModel {
                code,
                flags: DIAMETER_FLAG_MANDATORY,
                vendor_id: None,
                data: u32_bytes(val),
            }),
    {
        let mut data: Vec<u8> = Vec::new();
        push_u32(&mut data, val);
        assert(data@ =~= u32_bytes(val));
        DiameterAvp { code, flags: 0x40, vendor_id: None, data }
    }

    pub fn new_utf8(code: u32, text: &str) -> (r: Self)
        ensures
            r@ == (AvpModel {
                code,
                flags: DIAMETER_FLAG_MANDATORY,
                vendor_id: None,
                data: text.spec_bytes(),
            }),
    {
        Self::new(code, text.as_bytes())
    }

    pub fn new_string(code: u32, text: &str) -> (r: Self)
        ensures
            r@ == (AvpModel {
                code,
                flags: DIAMETER_FLAG_MANDATORY,
                vendor_id: None,
                data: text.spec_bytes(),
            }),
    {
        Self::new_utf8(code, text)
    }

    /// An Address AVP holding an IPv4 address: address family 1, then the four octets.
    pub fn new_ipv4(code: u32, ip: Ipv4Address) -> (r: Self)
        ensures
            r@ == (AvpModel {
                code,
                flags: DIAMETER_FLAG_MANDATORY,
                vendor_id: None,
                data: seq![0u8, 1u8] + ip.0@,
            }),
    {
        let mut data: Vec<u8> = Vec::new();
        data.push(0);
        data.push(1);
        data.push(ip.0[0]);
        data.push(ip.0[1]);
        data.push(ip.0[2]);
        data.push(ip.0[3]);
        assert(data@ =~= seq![0u8, 1u8] + ip.0@);
        DiameterAvp { code, flags: 0x40, vendor_id: None, data }
    }

    pub fn new_vendor(code: u32, flags: u8, vendor_id: u32, data: &[u8]) -> (r: Self)
        ensures
            r@ == (AvpModel { code, flags, vendor_id: Some(vendor_id), data: data@ }),
    {
        DiameterAvp {
            code,
            flags,
            vendor_id: Some(vendor_id),
            data: to_vec(data),
        }
    }

    /// Decodes AVPs from the front of `data`, stopping at the first malformed one.
    pub fn parse_all(data: &[u8]) -> (r: Vec<DiameterAvp>)
        ensures
            avp_models(r@) == avps_parse_prefix(data@),
    {
        let mut list: Vec<DiameterAvp> = Vec::new();
        let mut off: usize = 0;
        assert(data@.skip(0) =~= data@);
        assert(avp_models(list@) =~= Seq::<AvpModel>::empty());
        assert(Seq::<AvpModel>::empty() + avps_parse_prefix(data@) =~= avps_parse_prefix(data@));
        while off < data.len()
            invariant
                off <= data@.len(),
                avps_parse_prefix(data@) == avp_models(list@) + avps_parse_prefix(
                    data@.skip(off as int),
                ),
            decreases data@.len() - off,
        {
            let rest = slice_subrange(data, off, data.len());
            assert(rest@ =~= data@.skip(off as int));
            match DiameterAvp::parse(rest) {
                Some((avp, consumed)) => {
                    proof {
                        assert(data@.skip(off as int).skip(consumed as int) =~= data@.skip(
                            off + consumed,
                        ));
                        assert(avp_models(list@.push(avp)) =~= avp_models(list@) + seq![avp@]);
                    }
                    list.push(avp);
                    off = off + consumed;
                },
                None => {
                    assert(avp_models(list@) + Seq::<AvpModel>::empty() =~= avp_models(list@));
                    return list;
                },
            }
        }
        assert(avp_models(list@) + Seq::<AvpModel>::empty() =~= avp_models(list@));
        list
    }

    /// The first four data octets as a big-endian number.
    pub fn as_u32(&self) -> (r: Option<u32>)
        ensures
            r == (if self.data@.len() >= 4 {
                Some(be32_at(self.data@, 0) as u32)
            } else {
                None
            }),
    {
        if self.data.len() >= 4 {
            Some(read_u32(self.data.as_slice(), 0))
        } else {
            None
        }
    }

    /// The data as text, when it is well-formed UTF-8.
    pub fn as_string(&self) -> (r: Option<String>)
        ensures
            r is Some <==> valid_utf8(self.data@),
            r matches Some(s) ==> s@ == decode_utf8(self.data@),
    {
        string_from_utf8(clone_bytes(&self.data))
    }

    pub fn serialize(&self) -> (r: Vec<u8>)
        ensures
            r@ == avp_bytes(self@),
    {
        let hdr_len: u64 = if self.vendor_id.is_some() {
            12
        } else {
            8
        };
        let total_len = ((hdr_len as u128 + self.data.len() as u128) % 0x1_0000_0000) as u32;
        let mut buf: Vec<u8> = Vec::new();
        push_u32(&mut buf, self.code);
        let mut b_flags = self.flags;
        if self.vendor_id.is_some() {
            b_flags = b_flags | 0x80;
        }
        buf.push(b_flags);
        push_u24(&mut buf, total_len);
        match self.vendor_id {
            Some(vid) => push_u32(&mut buf, vid),
            None => {},
        }
        push_all(&mut buf, self.data.as_slice());
        let ghost u = buf@;
        assert(u =~= avp_unpadded(self@));
        let pad = (4 - buf.len() % 4) % 4;
        proof {
            reveal(avp_bytes);
        }
        let mut i: usize = 0;
        while i < pad
            invariant
                i <= pad,
                pad == pad4(u.len() as int),
                buf@ == u + zeros(i as nat),
            decreases pad - i,
        {
            buf.push(0);
            i = i + 1;
            assert(buf@ =~= u + zeros(i as nat));
        }
        buf
    }

    /// Decodes one AVP at the front of `data`; the count is the octets it takes with padding.
    pub fn parse(data: &[u8]) -> (r: Option<(Self, usize)>)
        ensures
            match r {
                Some((a, n)) => avp_parse(data@) == Some((a@, n as int)),
                None => avp_parse(data@) is None,
            },
    {
        if data.len() < 8 {
            return None;
        }
        let code = read_u32(data, 0);
        let flags = data[4];
        let length = read_u24(data, 5) as usize;
        if length < 8 || length > data.len() {
            return None;
        }
        let has_vendor_id = (flags & DIAMETER_FLAG_VENDOR_SPECIFIC) != 0;
        if has_vendor_id && length < 12 {
            return None;
        }
        let (vendor_id, data_start) = if has_vendor_id {
            (Some(read_u32(data, 8)), 12usize)
        } else {
            (None, 8usize)
        };
        let padded_len = (length + 3) / 4 * 4;
        if padded_len > data.len() {
            return None;
        }
        let avp_data = copy_range(data, data_start, length);
        Some((DiameterAvp { code, flags, vendor_id, data: avp_data }, padded_len))
    }
}

/// The concatenated serializations of `avps`, as in a grouped AVP or a message body.
pub fn serialize_avps(avps: &Vec<DiameterAvp>) -> (r: Vec<u8>)
    ensures
        r@ == avps_bytes(avp_models(avps@)),
{
    let ghost models = avp_models(avps@);
    let mut buf: Vec<u8> = Vec::new();
    let mut i: usize = 0;
    assert(models.subrange(0, 0) =~= Seq::<AvpModel>::empty());
    while i < avps.len()
        invariant
            i <= avps@.len(),
            models == avp_models(avps@),
            buf@ == avps_bytes(models.subrange(0, i as int)),
        decreases avps@.len() - i,
    {
        let a = avps[i].serialize();
        push_all(&mut buf, a.as_slice());
        i = i + 1;
        proof {
            assert(models.subrange(0, i as int) =~= models.subrange(0, i - 1).push(models[i - 1]));
            lemma_avps_bytes_push(models.subrange(0, i - 1), models[i - 1]);
        }
    }
    assert(models.subrange(0, i as int) =~= models);
    buf
}

/// Decodes a whole run of AVPs, such as the data of a grouped AVP; `None` when any of
/// them is malformed.
pub fn parse_avps(data: &[u8]) -> (r: Option<Vec<DiameterAvp>>)
    ensures
        match r {
            Some(v) => avps_parse(data@) == Some(avp_models(v@)),
            None => avps_parse(data@) is None,
        },
{
    let mut list: Vec<DiameterAvp> = Vec::new();
    let mut off: usize = 0;
    assert(data@.skip(0) =~= data@);
    assert(avp_models(list@) =~= Seq::<AvpModel>::empty());
    proof {
        match avps_parse(data@) {
            Some(all) => {
                assert(Seq::<AvpModel>::empty() + all =~= all);
            },
            None => {},
        }
    }
    while off < data.len()
        invariant
            off <= data@.len(),
            avps_parse(data@) == (match avps_parse(data@.skip(off as int)) {
                Some(rest) => Some(avp_models(list@) + rest),
                None => None::<Seq<AvpModel>>,
            }),
        decreases data@.len() - off,
    {
        let rest = slice_subrange(data, off, data.len());
        assert(rest@ =~= data@.skip(off as int));
        match DiameterAvp::parse(rest) {
            Some((avp, consumed)) => {
                proof {
                    let length = be24_at(rest@, 5);
                    assert(length >= 8);
                    assert((length + 3) / 4 * 4 >= 8) by (nonlinear_arith)
                        requires length >= 8;
                    assert(data@.skip(off as int).skip(consumed as int) =~= data@.skip(off + consumed));
                    assert(avp_models(list@.push(avp)) =~= avp_models(list@) + seq![avp@]);
                    match avps_parse(data@.skip(off + consumed)) {
                        Some(tail) => {
                            assert(avp_models(list@) + (seq![avp@] + tail) =~= avp_models(list@.push(avp)) + tail);
                        },
                        None => {},
                    }
                }
                list.push(avp);
                off = off + consumed;
            },
            None => {
                return None;
            },
        }
    }
    assert(data@.skip(off as int).len() == 0);
    assert(avp_models(list@) + Seq::<AvpModel>::empty() =~= avp_models(list@));
    Some(list)
}

impl DiameterMessage {
    pub fn new_request(
        command_code: u32,
        application_id: u32,
        hop_by_hop_id: u32,
        end_to_end_id: u32,
    ) -> (r: Self)
        ensures
            r.header == (DiameterHeader {
                version: DIAMETER_VERSION_1,
                length: 0,
                flags: DIAMETER_FLAG_REQUEST | DIAMETER_FLAG_PROXIABLE,
                command_code,
                application_id,
                hop_by_hop_id,
                end_to_end_id,
            }),
            r.avps@.len() == 0,
    {
        DiameterMessage {
            header: DiameterHeader {
                version: DIAMETER_VERSION_1,
                length: 0,
                flags: DIAMETER_FLAG_REQUEST | DIAMETER_FLAG_PROXIABLE,
                command_code,
                application_id,
                hop_by_hop_id,
                end_to_end_id,
            },
            avps: Vec::new(),
        }
    }

    pub fn new_answer(
        command_code: u32,
        application_id: u32,
        hop_by_hop_id: u32,
        end_to_end_id: u32,
    ) -> (r: Self)
        ensures
            r.header == (DiameterHeader {
                version: DIAMETER_VERSION_1,
                length: 0,
                flags: DIAMETER_FLAG_PROXIABLE,
                command_code,
                application_id,
                hop_by_hop_id,
                end_to_end_id,
            }),
            r.avps@.len() == 0,
    {
        DiameterMessage {
            header: DiameterHeader {
                version: DIAMETER_VERSION_1,
                length: 0,
                flags: DIAMETER_FLAG_PROXIABLE,
                command_code,
                application_id,
                hop_by_hop_id,
                end_to_end_id,
            },
            avps: Vec::new(),
        }
    }

    pub fn add_avp(&mut self, avp: DiameterAvp)
        ensures
            final(self).header == old(self).header,
            final(self).avps@ == old(self).avps@.push(avp),
            final(self)@.avps == old(self)@.avps.push(avp@),
    {
        self.avps.push(avp);
        assert(avp_models(self.avps@) =~= avp_models(old(self).avps@).push(avp@));
    }

    /// The first AVP with the given code.
    pub fn get_avp(&self, code: u32) -> (r: Option<&DiameterAvp>)
        ensures
            match r {
                Some(a) => find_avp(self@.avps, code) == Some(a@),
                None => find_avp(self@.avps, code) is None,
            },
    {
        let mut i: usize = 0;
        assert(self@.avps.skip(0) =~= self@.avps);
        while i < self.avps.len()
            invariant
                i <= self.avps@.len(),
                find_avp(self@.avps, code) == find_avp(self@.avps.skip(i as int), code),
            decreases self.avps@.len() - i,
        {
            assert(self@.avps.skip(i as int).skip(1) =~= self@.avps.skip(i + 1));
            if self.avps[i].code == code {
                return Some(&self.avps[i]);
            }
            i = i + 1;
        }
        None
    }

    pub fn build_cer(
        origin_host: &str,
        origin_realm: &str,
        host_ip: Ipv4Address,
        vendor_id: u32,
        product_name: &str,
        hop_id: u32,
        end_id: u32,
    ) -> (r: Self)
        ensures
            r.header == (DiameterHeader {
                version: DIAMETER_VERSION_1,
                length: 0,
                flags: DIAMETER_FLAG_REQUEST | DIAMETER_FLAG_PROXIABLE,
                command_code: DIAMETER_CMD_CAPABILITIES_EXCHANGE,
                application_id: 0,
                hop_by_hop_id: hop_id,
                end_to_end_id: end_id,
            }),
            r@.avps == seq![
                mandatory_avp(DIAMETER_AVP_ORIGIN_HOST, origin_host.spec_bytes()),
                mandatory_avp(DIAMETER_AVP_ORIGIN_REALM, origin_realm.spec_bytes()),
                mandatory_avp(DIAMETER_AVP_HOST_IP_ADDRESS, seq![0u8, 1u8] + host_ip.0@),
                mandatory_avp(DIAMETER_AVP_VENDOR_ID, u32_bytes(vendor_id)),
                mandatory_avp(DIAMETER_AVP_PRODUCT_NAME, product_name.spec_bytes()),
                mandatory_avp(DIAMETER_AVP_AUTH_APPLICATION_ID, u32_bytes(0)),
            ],
    {
        let header = DiameterHeader {
            version: DIAMETER_VERSION_1,
            length: 0,
            flags: DIAMETER_FLAG_REQUEST | DIAMETER_FLAG_PROXIABLE,
            command_code: DIAMETER_CMD_CAPABILITIES_EXCHANGE,
            application_id: 0,
            hop_by_hop_id: hop_id,
            end_to_end_id: end_id,
        };
        let mut avps: Vec<DiameterAvp> = Vec::new();
        avps.push(DiameterAvp::new_utf8(DIAMETER_AVP_ORIGIN_HOST, origin_host));
        avps.push(DiameterAvp::new_utf8(DIAMETER_AVP_ORIGIN_REALM, origin_realm));
        avps.push(DiameterAvp::new_ipv4(DIAMETER_AVP_HOST_IP_ADDRESS, host_ip));
        avps.push(DiameterAvp::new_u32(DIAMETER_AVP_VENDOR_ID, vendor_id));
        avps.push(DiameterAvp::new_utf8(DIAMETER_AVP_PRODUCT_NAME, product_name));
        avps.push(DiameterAvp::new_u32(DIAMETER_AVP_AUTH_APPLICATION_ID, 0));
        let r = DiameterMessage { header, avps };
        assert(r@.avps =~= seq![
            mandatory_avp(DIAMETER_AVP_ORIGIN_HOST, origin_host.spec_bytes()),
            mandatory_avp(DIAMETER_AVP_ORIGIN_REALM, origin_realm.spec_bytes()),
            mandatory_avp(DIAMETER_AVP_HOST_IP_ADDRESS, seq![0u8, 1u8] + host_ip.0@),
            mandatory_avp(DIAMETER_AVP_VENDOR_ID, u32_bytes(vendor_id)),
            mandatory_avp(DIAMETER_AVP_PRODUCT_NAME, product_name.spec_bytes()),
            mandatory_avp(DIAMETER_AVP_AUTH_APPLICATION_ID, u32_bytes(0)),
        ]);
        r
    }

    /// Answers `req`: same command, application and identifiers, request bit cleared, with
    /// Result-Code, Origin-Host and Origin-Realm.
    pub fn build_cea(req: &DiameterMessage, origin_host: &str, origin_realm: &str, result_code: u32) -> (r: Self)
        ensures
            r.header == answer_header(req.header),
            r@.avps == seq![
                mandatory_avp(DIAMETER_AVP_RESULT_CODE, u32_bytes(result_code)),
                mandatory_avp(DIAMETER_AVP_ORIGIN_HOST, origin_host.spec_bytes()),
                mandatory_avp(DIAMETER_AVP_ORIGIN_REALM, origin_realm.spec_bytes()),
            ],
    {
        let header = DiameterHeader {
            version: DIAMETER_VERSION_1,
            length: 0,
            flags: DIAMETER_FLAG_PROXIABLE,
            command_code: req.header.command_code,
            application_id: req.header.application_id,
            hop_by_hop_id: req.header.hop_by_hop_id,
            end_to_end_id: req.header.end_to_end_id,
        };
        let mut avps: Vec<DiameterAvp> = Vec::new();
        avps.push(DiameterAvp::new_u32(DIAMETER_AVP_RESULT_CODE, result_code));
        avps.push(DiameterAvp::new_utf8(DIAMETER_AVP_ORIGIN_HOST, origin_host));
        avps.push(DiameterAvp::new_utf8(DIAMETER_AVP_ORIGIN_REALM, origin_realm));
        let r = DiameterMessage { header, avps };
        assert(r@.avps =~= seq![
            mandatory_avp(DIAMETER_AVP_RESULT_CODE, u32_bytes(result_code)),
            mandatory_avp(DIAMETER_AVP_ORIGIN_HOST, origin_host.spec_bytes()),
            mandatory_avp(DIAMETER_AVP_ORIGIN_REALM, origin_realm.spec_bytes()),
        ]);
        r
    }

    pub fn serialize(&self) -> (r: Vec<u8>)
        ensures
            r@ == message_bytes(self@),
    {
        let mut avp_bytes_buf: Vec<u8> = Vec::new();
        let mut i: usize = 0;
        assert(self@.avps.subrange(0, 0) =~= Seq::<AvpModel>::empty());
        while i < self.avps.len()
            invariant
                i <= self.avps@.len(),
                avp_bytes_buf@ == avps_bytes(self@.avps.subrange(0, i as int)),
            decreases self.avps@.len() - i,
        {
            let a = self.avps[i].serialize();
            push_all(&mut avp_bytes_buf, a.as_slice());
            i = i + 1;
            proof {
                assert(self@.avps.subrange(0, i as int) =~= self@.avps.subrange(0, i - 1).push(
                    self@.avps[i - 1],
                ));
                lemma_avps_bytes_push(self@.avps.subrange(0, i - 1), self@.avps[i - 1]);
            }
        }
        assert(self@.avps.subrange(0, i as int) =~= self@.avps);
        let total_len = ((avp_bytes_buf.len() as u128 + 20) % 0x1_0000_0000) as u32;
        let mut buf: Vec<u8> = Vec::new();
        buf.push(self.header.version);
        push_u24(&mut buf, total_len);
        buf.push(self.header.flags);
        push_u24(&mut buf, self.header.command_code);
        push_u32(&mut buf, self.header.application_id);
        push_u32(&mut buf, self.header.hop_by_hop_id);
        push_u32(&mut buf, self.header.end_to_end_id);
        push_all(&mut buf, avp_bytes_buf.as_slice());
        assert(buf@ =~= message_bytes(self@));
        buf
    }

    pub fn parse(data: &[u8]) -> (r: Result<Self, DiameterError>)
        ensures
            match r {
                Ok(m) => message_parse(data@) == Ok::<MessageModel, DiameterError>(m@),
                Err(e) => message_parse(data@) == Err::<MessageModel, DiameterError>(e),
            },
    {
        if data.len() < 20 {
            return Err(DiameterError::PacketTooShort(data.len()));
        }
        let version = data[0];
        if version != DIAMETER_VERSION_1 {
            return Err(DiameterError::UnsupportedVersion(version));
        }
        let length = read_u24(data, 1) as usize;
        if length < 20 || length > data.len() {
            return Err(DiameterError::InvalidLength);
        }
        let flags = data[4];
        let command_code = read_u24(data, 5);
        let application_id = read_u32(data, 8);
        let hop_by_hop_id = read_u32(data, 12);
        let end_to_end_id = read_u32(data, 16);
        let mut avps: Vec<DiameterAvp> = Vec::new();
        let mut offset: usize = 20;
        let ghost body = data@.subrange(20, length as int);
        while offset < length
            invariant
                20 <= offset <= length <= data@.len(),
                body == data@.subrange(20, length as int),
                length == be24_at(data@, 1),
                data@.len() >= 20,
                data@[0] == DIAMETER_VERSION_1,
                avps_parse(body) == match avps_parse(data@.subrange(offset as int, length as int)) {
                    Some(rest) => Some(avp_models(avps@) + rest),
                    None => None::<Seq<AvpModel>>,
                },
            decreases length - offset,
        {
            let rest = slice_subrange(data, offset, length);
            match DiameterAvp::parse(rest) {
                Some((avp, consumed)) => {
                    proof {
                        assert(rest@.skip(consumed as int) =~= data@.subrange(
                            offset + consumed,
                            length as int,
                        ));
                        assert(avp_models(avps@.push(avp)) =~= avp_models(avps@) + seq![avp@]);
                        let r1 = avps_parse(data@.subrange(offset + consumed, length as int));
                        if r1 is Some {
                            assert(avp_models(avps@) + (seq![avp@] + r1.unwrap()) =~= avp_models(
                                avps@.push(avp),
                            ) + r1.unwrap());
                        }
                    }
                    avps.push(avp);
                    offset = offset + consumed;
                },
                None => {
                    assert(rest@ =~= data@.subrange(offset as int, length as int));
                    assert(avps_parse(rest@) is None);
                    assert(avps_parse(body) is None);
                    assert(be24_at(data@, 1) == length);
                    return Err(DiameterError::InvalidLength);
                },
            }
        }
        assert(avp_models(avps@) + Seq::<AvpModel>::empty() =~= avp_models(avps@));
        Ok(
            DiameterMessage {
                header: DiameterHeader {
                    version,
                    length: length as u32,
                    flags,
                    command_code,
                    application_id,
                    hop_by_hop_id,
                    end_to_end_id,
                },
                avps,
            },
        )
    }
}

proof fn lemma_pad(l: int)
    requires
        l >= 0,
    ensures
        (l + 3) / 4 * 4 == l + pad4(l),
{
    assert((l + 3) / 4 * 4 == l + (4 - l % 4) % 4) by (nonlinear_arith)
        requires
            l >= 0,
    ;
}

/// Law: an AVP whose V bit agrees with its Vendor-ID and whose length fits the 24-bit length
/// field decodes from its own serialization, whatever octets follow it, taking exactly the
/// octets of that serialization.
pub proof fn lemma_avp_roundtrip(a: AvpModel, rest: Seq<u8>)
    requires
        avp_wf(a),
    ensures
        avp_parse(avp_bytes(a) + rest) == Some((a, avp_bytes(a).len() as int)),
{
    reveal(avp_bytes);
    let u = avp_unpadded(a);
    let b = avp_bytes(a);
    let s = b + rest;
    let l = avp_header_len(a) + a.data.len();
    lemma_u32_roundtrip(a.code);
    lemma_u24_roundtrip(l as u32);
    assert(u.len() == l);
    lemma_pad(l);
    assert(forall|f: u8| (f & 0x80u8 != 0) ==> (f | 0x80u8) == f) by (bit_vector);
    assert(forall|f: u8| (f | 0x80u8) & 0x80u8 != 0) by (bit_vector);
    assert(s[0] == u32_bytes(a.code)[0] && s[1] == u32_bytes(a.code)[1] && s[2] == u32_bytes(
        a.code,
    )[2] && s[3] == u32_bytes(a.code)[3]);
    assert(be32_at(s, 0) == a.code);
    assert(s[4] == avp_wire_flags(a));
    assert(s[4] == a.flags);
    assert(l % 0x1_0000_0000 == l);
    assert(s[5] == u24_bytes(l as u32)[0] && s[6] == u24_bytes(l as u32)[1] && s[7] == u24_bytes(
        l as u32,
    )[2]);
    assert(be24_at(s, 5) == l);
    match a.vendor_id {
        Some(v) => {
            lemma_u32_roundtrip(v);
            assert(s[8] == u32_bytes(v)[0] && s[9] == u32_bytes(v)[1] && s[10] == u32_bytes(v)[2]
                && s[11] == u32_bytes(v)[3]);
            assert(be32_at(s, 8) == v);
            assert(s.subrange(12, l) =~= a.data);
        },
        None => {
            assert(s.subrange(8, l) =~= a.data);
        },
    }
}

/// Law: the AVP list decodes from the concatenation of the serializations of AVPs that the
/// codec carries unchanged.
pub proof fn lemma_avps_roundtrip(avps: Seq<AvpModel>)
    requires
        forall|i: int| 0 <= i < avps.len() ==> avp_wf(#[trigger] avps[i]),
    ensures
        avps_parse(avps_bytes(avps)) == Some(avps),
    decreases avps.len(),
{
    if avps.len() == 0 {
        assert(avps_bytes(avps) =~= Seq::<u8>::empty());
        assert(avps =~= Seq::<AvpModel>::empty());
    } else {
        let tail = avps_bytes(avps.skip(1));
        let b = avp_bytes(avps[0]);
        lemma_avp_roundtrip(avps[0], tail);
        assert(avps_bytes(avps) == b + tail);
        assert((b + tail).skip(b.len() as int) =~= tail);
        assert forall|i: int| 0 <= i < avps.skip(1).len() implies avp_wf(
            #[trigger] avps.skip(1)[i],
        ) by {
            assert(avps.skip(1)[i] == avps[i + 1]);
        }
        lemma_avps_roundtrip(avps.skip(1));
        assert(seq![avps[0]] + avps.skip(1) =~= avps);
    }
}

/// Law: a version-1 message whose command code fits 24 bits, whose AVPs the codec carries
/// unchanged and whose total length fits the 24-bit length field decodes from its own
/// serialization to the same header (with the length field set to the serialized length)
/// and the same AVPs.
pub proof fn lemma_message_roundtrip(m: MessageModel)
    requires
        m.header.version == DIAMETER_VERSION_1,
        m.header.command_code < 0x100_0000,
        forall|i: int| 0 <= i < m.avps.len() ==> avp_wf(#[trigger] m.avps[i]),
        20 + avps_bytes(m.avps).len() < 0x100_0000,
    ensures
        message_parse(message_bytes(m)) == Ok::<MessageModel, DiameterError>(
            MessageModel {
                header: DiameterHeader {
                    length: (20 + avps_bytes(m.avps).len()) as u32,
                    ..m.header
                },
                avps: m.avps,
            },
        ),
{
    let body = avps_bytes(m.avps);
    let s = message_bytes(m);
    let l = (20 + body.len()) as int;
    let h = m.header;
    lemma_u24_roundtrip(l as u32);
    lemma_u24_roundtrip(h.command_code);
    lemma_u32_roundtrip(h.application_id);
    lemma_u32_roundtrip(h.hop_by_hop_id);
    lemma_u32_roundtrip(h.end_to_end_id);
    assert(l % 0x1_0000_0000 == l);
    assert(s.len() == l);
    assert(s[1] == u24_bytes(l as u32)[0] && s[2] == u24_bytes(l as u32)[1] && s[3] == u24_bytes(
        l as u32,
    )[2]);
    assert(be24_at(s, 1) == l);
    assert(s[5] == u24_bytes(h.command_code)[0] && s[6] == u24_bytes(h.command_code)[1] && s[7]
        == u24_bytes(h.command_code)[2]);
    assert(be24_at(s, 5) == h.command_code);
    let a = u32_bytes(h.application_id);
    assert(s[8] == a[0] && s[9] == a[1] && s[10] == a[2] && s[11] == a[3]);
    let hb = u32_bytes(h.hop_by_hop_id);
    assert(s[12] == hb[0] && s[13] == hb[1] && s[14] == hb[2] && s[15] == hb[3]);
    let e = u32_bytes(h.end_to_end_id);
    assert(s[16] == e[0] && s[17] == e[1] && s[18] == e[2] && s[19] == e[3]);
    assert(s.subrange(20, l) =~= body);
    lemma_avps_roundtrip(m.avps);
}

/// An AVP with only the M bit set and no Vendor-ID.
pub open spec fn mandatory_avp(code: u32, data: Seq<u8>) -> AvpModel {
    AvpModel { code, flags: DIAMETER_FLAG_MANDATORY, vendor_id: None, data }
}

/// The header of an answer to a request with header `h`.
pub open spec fn answer_header(h: DiameterHeader) -> DiameterHeader {
    DiameterHeader {
        version: DIAMETER_VERSION_1,
        length: 0,
        flags: DIAMETER_FLAG_PROXIABLE,
        command_code: h.command_code,
        application_id: h.application_id,
        hop_by_hop_id: h.hop_by_hop_id,
        end_to_end_id: h.end_to_end_id,
    }
}

/// In-memory Diameter base protocol server.
#[derive(Debug, Clone, Default)]
pub struct DiameterServer {
    pub origin_host: String,
    pub origin_realm: String,
}

/// The Result-Code the base server answers a command with.
pub open spec fn base_result_code(command_code: u32) -> u32 {
    if command_code == DIAMETER_CMD_CAPABILITIES_EXCHANGE || command_code
        == DIAMETER_CMD_DEVICE_WATCHDOG {
        DIAMETER_SUCCESS
    } else {
        DIAMETER_COMMAND_UNSUPPORTED
    }
}

impl DiameterServer {
    pub fn new(origin_host: &str, origin_realm: &str) -> (r: Self)
        ensures
            r.origin_host@ == origin_host@,
            r.origin_realm@ == origin_realm@,
    {
        DiameterServer { origin_host: owned(origin_host), origin_realm: owned(origin_realm) }
    }

    /// Answers capabilities exchange and device watchdog with success, anything else with
    /// COMMAND_UNSUPPORTED.
    pub fn handle_request(&self, req: &DiameterMessage) -> (r: DiameterMessage)
        ensures
            r.header == answer_header(req.header),
            r@.avps == seq![
                mandatory_avp(DIAMETER_AVP_RESULT_CODE, u32_bytes(base_result_code(req.header.command_code))),
                mandatory_avp(DIAMETER_AVP_ORIGIN_HOST, encode_utf8(self.origin_host@)),
                mandatory_avp(DIAMETER_AVP_ORIGIN_REALM, encode_utf8(self.origin_realm@)),
            ],
    {
        let code = if req.header.command_code == DIAMETER_CMD_CAPABILITIES_EXCHANGE {
            DIAMETER_SUCCESS
        } else if req.header.command_code == DIAMETER_CMD_DEVICE_WATCHDOG {
            DIAMETER_SUCCESS
        } else {
            DIAMETER_COMMAND_UNSUPPORTED
        };
        DiameterMessage::build_cea(req, self.origin_host.as_str(), self.origin_realm.as_str(), code)
    }
}


/// Law: the base server answers a Capabilities-Exchange-Request (257) and a
/// Device-Watchdog-Request (280) with DIAMETER_SUCCESS (2001), and every other command with
/// DIAMETER_COMMAND_UNSUPPORTED (3001); the answer's first AVP is that Result-Code.
pub proof fn lemma_base_answers(command_code: u32)
    ensures
        (command_code == 257u32 || command_code == 280u32) ==> base_result_code(command_code) == 2001u32,
        !(command_code == 257u32 || command_code == 280u32) ==> base_result_code(command_code) == 3001u32,
        be32_at(u32_bytes(base_result_code(command_code)), 0) == (if command_code == 257u32 || command_code == 280u32 {
            2001u32
        } else {
            3001u32
        }),
{
    lemma_u32_roundtrip(base_result_code(command_code));
}

} // verus!
