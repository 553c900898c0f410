//! Domain Name System (RFC 1035, 3596, 2782, 6891, 2308): message codec with name
//! compression, response builders and a cache.
use vstd::prelude::*;
use vstd::set_lib::{lemma_int_range, lemma_len_subset, set_int_range};
use vstd::string::*;
use crate::net::{Ipv4Address, Ipv6Address};
use crate::text::{
    concat, dec_chars, decimal, hex2, hex2_chars, join3, lossy_chars, lowercase, owned, push_char,
    string_from_utf8_lossy, to_lowercase,
};
use crate::wire::{
    be16_at, be32_at, copy_range, push_all, push_u16, push_u32, read_u16, read_u32, to_vec,
    u16_bytes, u32_bytes,
};

verus! {

pub const DNS_PORT: u16 = 53;

pub const DNS_TYPE_A: u16 = 1;
pub const DNS_TYPE_NS: u16 = 2;
pub const DNS_TYPE_CNAME: u16 = 5;
pub const DNS_TYPE_SOA: u16 = 6;
pub const DNS_TYPE_PTR: u16 = 12;
pub const DNS_TYPE_MX: u16 = 15;
pub const DNS_TYPE_TXT: u16 = 16;
pub const DNS_TYPE_AAAA: u16 = 28;
pub const DNS_TYPE_SRV: u16 = 33;
pub const DNS_TYPE_OPT: u16 = 41;
pub const DNS_TYPE_ANY: u16 = 255;

pub const DNS_CLASS_IN: u16 = 1;
pub const DNS_CLASS_ANY: u16 = 255;

pub const DNS_RCODE_NOERROR: u8 = 0;
pub const DNS_RCODE_FORMERR: u8 = 1;
pub const DNS_RCODE_SERVFAIL: u8 = 2;
pub const DNS_RCODE_NXDOMAIN: u8 = 3;
pub const DNS_RCODE_NOTIMP: u8 = 4;
pub const DNS_RCODE_REFUSED: u8 = 5;

#[derive(Debug, Clone, PartialEq, Eq)]
pub struct DnsQuestion {
    pub name: String,
    pub qtype: u16,
    pub qclass: u16,
}

#[derive(Debug, Clone, PartialEq, Eq)]
pub enum DnsRecordData {
    A(Ipv4Address),
    Aaaa(Ipv6Address),
    Cname(String),
    Ptr(String),
    Txt(Vec<String>),
    Mx { preference: u16, exchange: String },
    Ns(String),
    Srv { priority: u16, weight: u16, port: u16, target: String },
    Soa {
        mname: String,
        rname: String,
        serial: u32,
        refresh: u32,
        retry: u32,
        expire: u32,
        minimum: u32,
    },
    Opt { udp_payload_size: u16, ext_rcode: u8, version: u8, flags: u16, data: Vec<u8> },
    Raw(Vec<u8>),
}

/// The mathematical content of record data.
pub enum RecordModel {
    A(Ipv4Address),
    Aaaa(Ipv6Address),
    Cname(Seq<char>),
    Ptr(Seq<char>),
    Txt(Seq<Seq<char>>),
    Mx { preference: u16, exchange: Seq<char> },
    Ns(Seq<char>),
    Srv { priority: u16, weight: u16, port: u16, target: Seq<char> },
    Soa {
        mname: Seq<char>,
        rname: Seq<char>,
        serial: u32,
        refresh: u32,
        retry: u32,
        expire: u32,
        minimum: u32,
    },
    Opt { udp_payload_size: u16, ext_rcode: u8, version: u8, flags: u16, data: Seq<u8> },
    Raw(Seq<u8>),
}

pub open spec fn strings_view(v: Seq<String>) -> Seq<Seq<char>> {
    v.map_values(|s: String| s@)
}

impl View for DnsRecordData {
    type V = RecordModel;

    open spec fn view(&self) -> RecordModel {
        match self {
            DnsRecordData::A(ip) => RecordModel::A(*ip),
            DnsRecordData::Aaaa(ip) => RecordModel::Aaaa(*ip),
            DnsRecordData::Cname(s) => RecordModel::Cname(s@),
            DnsRecordData::Ptr(s) => RecordModel::Ptr(s@),
            DnsRecordData::Txt(v) => RecordModel::Txt(strings_view(v@)),
            DnsRecordData::Mx { preference, exchange } => RecordModel::Mx {
                preference: *preference,
                exchange: exchange@,
            },
            DnsRecordData::Ns(s) => RecordModel::Ns(s@),
            DnsRecordData::Srv { priority, weight, port, target } => RecordModel::Srv {
                priority: *priority,
                weight: *weight,
                port: *port,
                target: target@,
            },
            DnsRecordData::Soa { mname, rname, serial, refresh, retry, expire, minimum } =>
                RecordModel::Soa {
                mname: mname@,
                rname: rname@,
                serial: *serial,
                refresh: *refresh,
                retry: *retry,
                expire: *expire,
                minimum: *minimum,
            },
            DnsRecordData::Opt { udp_payload_size, ext_rcode, version, flags, data } =>
                RecordModel::Opt {
                udp_payload_size: *udp_payload_size,
                ext_rcode: *ext_rcode,
                version: *version,
                flags: *flags,
                data: data@,
            },
            DnsRecordData::Raw(d) => RecordModel::Raw(d@),
        }
    }
}

#[derive(Debug, Clone, PartialEq, Eq)]
pub struct DnsAnswer {
    pub name: String,
    pub rtype: u16,
    pub rclass: u16,
    pub ttl: u32,
    pub ip: Ipv4Address,
    pub data: DnsRecordData,
}

/// The mathematical content of a resource record.
pub struct AnswerModel {
    pub name: Seq<char>,
    pub rtype: u16,
    pub rclass: u16,
    pub ttl: u32,
    pub ip: Ipv4Address,
    pub data: RecordModel,
}

impl View for DnsAnswer {
    type V = AnswerModel;

    open spec fn view(&self) -> AnswerModel {
        AnswerModel {
            name: self.name@,
            rtype: self.rtype,
            rclass: self.rclass,
            ttl: self.ttl,
            ip: self.ip,
            data: self.data@,
        }
    }
}

pub open spec fn answers_view(v: Seq<DnsAnswer>) -> Seq<AnswerModel> {
    v.map_values(|a: DnsAnswer| a@)
}

/// The mathematical content of a question.
pub struct QuestionModel {
    pub name: Seq<char>,
    pub qtype: u16,
    pub qclass: u16,
}

impl View for DnsQuestion {
    type V = QuestionModel;

    open spec fn view(&self) -> QuestionModel {
        QuestionModel { name: self.name@, qtype: self.qtype, qclass: self.qclass }
    }
}

pub open spec fn questions_view(v: Seq<DnsQuestion>) -> Seq<QuestionModel> {
    v.map_values(|q: DnsQuestion| q@)
}

#[derive(Debug, Clone, PartialEq, Eq)]
pub struct DnsMessage {
    pub id: u16,
    pub is_response: bool,
    pub recursion_desired: bool,
    pub recursion_available: bool,
    pub authoritative: bool,
    pub truncated: bool,
    pub rcode: u8,
    pub questions: Vec<DnsQuestion>,
    pub answers: Vec<DnsAnswer>,
    pub authorities: Vec<DnsAnswer>,
    pub additionals: Vec<DnsAnswer>,
}

/// The mathematical content of a message.
pub struct MessageModel {
    pub id: u16,
    pub is_response: bool,
    pub recursion_desired: bool,
    pub recursion_available: bool,
    pub authoritative: bool,
    pub truncated: bool,
    pub rcode: u8,
    pub questions: Seq<QuestionModel>,
    pub answers: Seq<AnswerModel>,
    pub authorities: Seq<AnswerModel>,
    pub additionals: Seq<AnswerModel>,
}

impl View for DnsMessage {
    type V = MessageModel;

    open spec fn view(&self) -> MessageModel {
        MessageModel {
            id: self.id,
            is_response: self.is_response,
            recursion_desired: self.recursion_desired,
            recursion_available: self.recursion_available,
            authoritative: self.authoritative,
            truncated: self.truncated,
            rcode: self.rcode,
            questions: questions_view(self.questions@),
            answers: answers_view(self.answers@),
            authorities: answers_view(self.authorities@),
            additionals: answers_view(self.additionals@),
        }
    }
}

#[derive(Debug, Clone, PartialEq, Eq)]
pub enum DnsError {
    PacketTooShort(usize),
    InvalidLabel(String),
    InvalidCompressionPointer(usize),
    CompressionLoop,
    ReservedLabelType(u8),
    NameTooLong,
    UnsupportedFormat,
}

impl DnsError {
    /// The human-readable description of the error.
    pub open spec fn description(self) -> Seq<char> {
        match self {
            DnsError::PacketTooShort(l) => "DNS packet too short ("@ + dec_chars(l as nat)
                + " bytes, min 12)"@,
            DnsError::InvalidLabel(label) => "Invalid DNS label format: "@ + label@,
            DnsError::InvalidCompressionPointer(o) => "DNS compression pointer "@ + dec_chars(
                o as nat,
            ) + " is outside the packet"@,
            DnsError::CompressionLoop => "DNS compression pointer loop detected"@,
            DnsError::ReservedLabelType(v) => "Reserved DNS label type 0x"@ + hex2_chars(v),
            DnsError::NameTooLong => "Expanded DNS name exceeds 255 octets"@,
            DnsError::UnsupportedFormat => "Unsupported DNS record format"@,
        }
    }

    /// Renders the error as text.
    pub fn to_string(&self) -> (r: String)
        ensures
            r@ == self.description(),
    {
        match self {
            DnsError::PacketTooShort(l) => join3(
                "DNS packet too short (",
                decimal(*l as u64).as_str(),
                " bytes, min 12)",
            ),
            DnsError::InvalidLabel(label) => concat("Invalid DNS label format: ", label.as_str()),
            DnsError::InvalidCompressionPointer(o) => join3(
                "DNS compression pointer ",
                decimal(*o as u64).as_str(),
                " is outside the packet",
            ),
            DnsError::CompressionLoop => owned("DNS compression pointer loop detected"),
            DnsError::ReservedLabelType(v) => concat("Reserved DNS label type 0x", hex2(*v).as_str()),
            DnsError::NameTooLong => owned("Expanded DNS name exceeds 255 octets"),
            DnsError::UnsupportedFormat => owned("Unsupported DNS record format"),
        }
    }
}

// ---------------------------------------------------------------------------
// Names
// ---------------------------------------------------------------------------

/// Index of the first '.' octet in `b` at or after `i`, or `b.len()`.
pub open spec fn next_dot(b: Seq<u8>, i: int) -> int
    decreases b.len() - i,
{
    if i >= b.len() || i < 0 {
        b.len() as int
    } else if b[i] == 0x2Eu8 {
        i
    } else {
        next_dot(b, i + 1)
    }
}

/// One label: its length octet (the length modulo 256) then its octets; empty labels are
/// left out.
pub open spec fn label_bytes(l: Seq<u8>) -> Seq<u8> {
    if l.len() == 0 {
        Seq::empty()
    } else {
        seq![(l.len() % 256) as u8] + l
    }
}

/// The labels of the dot-separated octets of `b` from `i` on, encoded.
pub open spec fn labels_bytes(b: Seq<u8>, i: int) -> Seq<u8>
    decreases b.len() - i,
{
    if i < 0 || i > b.len() {
        Seq::empty()
    } else {
        let d = next_dot(b, i);
        if d >= b.len() {
            label_bytes(b.subrange(i, b.len() as int))
        } else if d < i {
            Seq::empty()
        } else {
            label_bytes(b.subrange(i, d)) + labels_bytes(b, d + 1)
        }
    }
}

/// The wire encoding of a dotted name given by its octets: its labels, then the root label.
pub open spec fn name_bytes(b: Seq<u8>) -> Seq<u8> {
    labels_bytes(b, 0) + seq![0u8]
}

pub(crate) proof fn lemma_next_dot(b: Seq<u8>, i: int)
    requires
        0 <= i <= b.len(),
    ensures
        i <= next_dot(b, i) <= b.len(),
        next_dot(b, i) < b.len() ==> b[next_dot(b, i)] == 0x2Eu8,
        forall|j: int| i <= j < next_dot(b, i) ==> b[j] != 0x2Eu8,
    decreases b.len() - i,
{
    if i < b.len() && b[i] != 0x2Eu8 {
        lemma_next_dot(b, i + 1);
    }
}

fn push_label(buf: &mut Vec<u8>, b: &[u8], start: usize, end: usize)
    requires
        start <= end <= b@.len(),
    ensures
        final(buf)@ == old(buf)@ + label_bytes(b@.subrange(start as int, end as int)),
{
    let ghost before = buf@;
    if end > start {
        buf.push(((end - start) % 256) as u8);
        let mut i = start;
        while i < end
            invariant
                start <= i <= end <= b@.len(),
                buf@ == before + seq![((end - start) % 256) as u8] + b@.subrange(start as int, i as int),
            decreases end - i,
        {
            buf.push(b[i]);
            i = i + 1;
            assert(b@.subrange(start as int, i as int) =~= b@.subrange(start as int, i - 1) + seq![b@[i - 1]]);
        }
    }
    assert(buf@ =~= before + label_bytes(b@.subrange(start as int, end as int)));
}

/// Appends the wire encoding of the dotted name whose octets are `b`.
pub fn encode_name_bytes(b: &[u8], buf: &mut Vec<u8>)
    ensures
        final(buf)@ == old(buf)@ + name_bytes(b@),
{
    let ghost before = buf@;
    let mut start: usize = 0;
    let mut i: usize = 0;
    proof {
        lemma_next_dot(b@, 0);
    }
    while i < b.len()
        invariant
            start <= i <= b@.len(),
            next_dot(b@, start as int) >= i,
            forall|j: int| start <= j < i ==> b@[j] != 0x2Eu8,
            buf@ + labels_bytes(b@, start as int) == before + labels_bytes(b@, 0),
        decreases b@.len() - i,
    {
        if b[i] == 0x2E {
            proof {
                lemma_next_dot(b@, start as int);
                assert(next_dot(b@, start as int) == i);
            }
            push_label(buf, b, start, i);
            start = i + 1;
            assert(buf@ + labels_bytes(b@, start as int) =~= before + labels_bytes(b@, 0));
        }
        i = i + 1;
        proof {
            lemma_next_dot(b@, start as int);
        }
    }
    proof {
        lemma_next_dot(b@, start as int);
    }
    push_label(buf, b, start, b.len());
    buf.push(0);
    assert(buf@ =~= before + name_bytes(b@));
}

/// Appends the wire encoding of a dotted host name.
pub fn encode_qname(hostname: &str, buf: &mut Vec<u8>)
    ensures
        final(buf)@ == old(buf)@ + name_bytes(hostname.spec_bytes()),
{
    encode_name_bytes(hostname.as_bytes(), buf);
}

/// The offsets of a packet of `n` octets.
pub open spec fn offsets(n: int) -> Set<int> {
    set_int_range(0, n)
}

/// Walking a compressed name: from `off`, with the positions already `visited`, whether a
/// pointer was followed, the offset after the name in the original position `ret`, the
/// octets of the expanded name counted so far `wire` and the labels read so far. The
/// result is the labels and the offset after the name.
pub open spec fn name_walk(
    data: Seq<u8>,
    off: int,
    visited: Set<int>,
    jumped: bool,
    ret: int,
    wire: int,
    labels: Seq<Seq<u8>>,
) -> Result<(Seq<Seq<u8>>, int), DnsError>
    decreases data.len() - visited.len(),
    when visited.subset_of(offsets(data.len() as int))
{
    if off < 0 || off >= data.len() {
        Err(DnsError::PacketTooShort(data.len() as usize))
    } else if visited.contains(off) {
        Err(DnsError::CompressionLoop)
    } else {
        proof {
            lemma_int_range(0, data.len() as int);
            lemma_len_subset(visited.insert(off), offsets(data.len() as int));
        }
        let len = data[off];
        if len == 0 {
            Ok((labels, if !jumped {
                off + 1
            } else {
                ret
            }))
        } else if len & 0xC0u8 == 0xC0u8 {
            if off + 1 >= data.len() {
                Err(DnsError::PacketTooShort(data.len() as usize))
            } else {
                let p = (len & 0x3Fu8) as int * 256 + data[off + 1];
                if p >= data.len() {
                    Err(DnsError::InvalidCompressionPointer(p as usize))
                } else {
                    name_walk(
                        data,
                        p,
                        visited.insert(off),
                        true,
                        if !jumped {
                            off + 2
                        } else {
                            ret
                        },
                        wire,
                        labels,
                    )
                }
            }
        } else if len & 0xC0u8 != 0 {
            Err(DnsError::ReservedLabelType(len & 0xC0u8))
        } else if wire + 1 + len > 255 {
            Err(DnsError::NameTooLong)
        } else if off + 1 + len > data.len() {
            Err(DnsError::PacketTooShort(data.len() as usize))
        } else {
            name_walk(
                data,
                off + 1 + len,
                visited.insert(off),
                jumped,
                ret,
                wire + 1 + len,
                labels.push(data.subrange(off + 1, off + 1 + len)),
            )
        }
    }
}

/// Decoding of the (possibly compressed) name at `off`: its labels and the offset after it.
pub open spec fn name_parse(data: Seq<u8>, off: int) -> Result<(Seq<Seq<u8>>, int), DnsError> {
    name_walk(data, off, Set::empty(), false, off, 1, Seq::empty())
}

/// The text of a name: its labels, each read as lossy UTF-8, joined by '.'.
pub open spec fn name_text(labels: Seq<Seq<u8>>) -> Seq<char>
    decreases labels.len(),
{
    if labels.len() == 0 {
        Seq::empty()
    } else if labels.len() == 1 {
        lossy_chars(labels[0])
    } else {
        name_text(labels.drop_last()) + seq!['.'] + lossy_chars(labels.last())
    }
}

/// Decoding of a name as text and the offset after it.
pub open spec fn qname_parse(data: Seq<u8>, off: int) -> Result<(Seq<char>, int), DnsError> {
    match name_parse(data, off) {
        Ok((labels, next)) => Ok((name_text(labels), next)),
        Err(e) => Err(e),
    }
}

fn join_labels(labels: &Vec<Vec<u8>>) -> (r: String)
    ensures
        r@ == name_text(labels@.map_values(|l: Vec<u8>| l@)),
{
    let ghost ls = labels@.map_values(|l: Vec<u8>| l@);
    let mut s = String::new();
    let mut i: usize = 0;
    while i < labels.len()
        invariant
            i <= labels@.len(),
            ls == labels@.map_values(|l: Vec<u8>| l@),
            s@ == name_text(ls.subrange(0, i as int)),
        decreases labels@.len() - i,
    {
        if i > 0 {
            push_char(&mut s, '.');
        }
        let part = string_from_utf8_lossy(labels[i].as_slice());
        s.append(part.as_str());
        i = i + 1;
        proof {
            let pre = ls.subrange(0, i as int);
            assert(pre.drop_last() =~= ls.subrange(0, i - 1));
            assert(pre.last() == labels@[i - 1]@);
            if i == 1 {
                assert(ls.subrange(0, 0) =~= Seq::<Seq<u8>>::empty());
                assert(s@ =~= lossy_chars(pre[0]));
            }
        }
    }
    assert(ls.subrange(0, i as int) =~= ls);
    s
}

/// Decodes the (possibly compressed) name at `offset`: its text and the offset after it in
/// the original position.
pub fn decode_qname(data: &[u8], offset: usize) -> (r: Result<(String, usize), DnsError>)
    ensures
        match r {
            Ok((s, n)) => qname_parse(data@, offset as int) == Ok::<(Seq<char>, int), DnsError>((s@, n as int)),
            Err(e) => qname_parse(data@, offset as int) == Err::<(Seq<char>, int), DnsError>(e),
        },
{
    match decode_name_labels(data, offset) {
        Ok((labels, next)) => Ok((join_labels(&labels), next)),
        Err(e) => Err(e),
    }
}

fn decode_name_labels(data: &[u8], offset: usize) -> (r: Result<(Vec<Vec<u8>>, usize), DnsError>)
    ensures
        match r {
            Ok((ls, n)) => name_parse(data@, offset as int) == Ok::<(Seq<Seq<u8>>, int), DnsError>((ls@.map_values(|l: Vec<u8>| l@), n as int)),
            Err(e) => name_parse(data@, offset as int) == Err::<(Seq<Seq<u8>>, int), DnsError>(e),
        },
{
    let mut labels: Vec<Vec<u8>> = Vec::new();
    let mut jumped = false;
    let mut return_offset = offset;
    let mut off = offset;
    let mut seen: Vec<bool> = Vec::new();
    let mut k: usize = 0;
    while k < data.len()
        invariant
            k <= data@.len(),
            seen@.len() == k,
            forall|j: int| 0 <= j < k ==> !seen@[j],
        decreases data@.len() - k,
    {
        seen.push(false);
        k = k + 1;
    }
    let mut wire: usize = 1;
    let ghost mut visited = Set::<int>::empty();
    assert(labels@.map_values(|l: Vec<u8>| l@) =~= Seq::<Seq<u8>>::empty());
    loop
        invariant
            seen@.len() == data@.len(),
            visited.subset_of(offsets(data@.len() as int)),
            forall|j: int| 0 <= j < data@.len() ==> (seen@[j] <==> visited.contains(j)),
            wire <= 255,
            name_parse(data@, offset as int) == name_walk(
                data@,
                off as int,
                visited,
                jumped,
                return_offset as int,
                wire as int,
                labels@.map_values(|l: Vec<u8>| l@),
            ),
        decreases data@.len() - visited.len(),
    {
        proof {
            lemma_int_range(0, data@.len() as int);
            lemma_len_subset(visited, offsets(data@.len() as int));
        }
        if off >= data.len() {
            return Err(DnsError::PacketTooShort(data.len()));
        }
        if seen[off] {
            return Err(DnsError::CompressionLoop);
        }
        proof {
            lemma_len_subset(visited.insert(off as int), offsets(data@.len() as int));
        }
        let len = data[off];
        if len == 0 {
            let next = if !jumped {
                off + 1
            } else {
                return_offset
            };
            return Ok((labels, next));
        }
        if len & 0xC0 == 0xC0 {
            if off + 1 >= data.len() {
                return Err(DnsError::PacketTooShort(data.len()));
            }
            let ptr_offset = ((len & 0x3F) as usize) * 256 + (data[off + 1] as usize);
            if ptr_offset >= data.len() {
                return Err(DnsError::InvalidCompressionPointer(ptr_offset));
            }
            if !jumped {
                return_offset = off + 2;
                jumped = true;
            }
            seen.set(off, true);
            proof {
                visited = visited.insert(off as int);
            }
            off = ptr_offset;
            continue;
        }
        if len & 0xC0 != 0 {
            return Err(DnsError::ReservedLabelType(len & 0xC0));
        }
        let label_len = len as usize;
        if wire + 1 + label_len > 255 {
            return Err(DnsError::NameTooLong);
        }
        wire = wire + 1 + label_len;
        if label_len > data.len() - (off + 1) {
            return Err(DnsError::PacketTooShort(data.len()));
        }
        let start = off + 1;
        let end = start + label_len;
        let label = copy_range(data, start, end);
        seen.set(off, true);
        proof {
            visited = visited.insert(off as int);
            assert(labels@.push(label).map_values(|l: Vec<u8>| l@) =~= labels@.map_values(
                |l: Vec<u8>| l@,
            ).push(label@));
        }
        labels.push(label);
        off = end;
    }
}

} // verus!

verus! {

// ---------------------------------------------------------------------------
// Resource records and messages
// ---------------------------------------------------------------------------

/// The IPv4 address held by the four octets at `i`.
pub open spec fn ip4_at(s: Seq<u8>, i: int) -> Ipv4Address {
    Ipv4Address([s[i], s[i + 1], s[i + 2], s[i + 3]])
}

/// The IPv6 address held by the sixteen octets at `i`.
pub open spec fn ip6_at(s: Seq<u8>, i: int) -> Ipv6Address {
    Ipv6Address(
        [
            s[i],
            s[i + 1],
            s[i + 2],
            s[i + 3],
            s[i + 4],
            s[i + 5],
            s[i + 6],
            s[i + 7],
            s[i + 8],
            s[i + 9],
            s[i + 10],
            s[i + 11],
            s[i + 12],
            s[i + 13],
            s[i + 14],
            s[i + 15],
        ],
    )
}

/// The length-prefixed character strings of TXT data from `off` on, up to the first that
/// does not fit.
pub open spec fn txt_from(rd: Seq<u8>, off: int) -> Seq<Seq<u8>>
    decreases rd.len() - off,
{
    if off < 0 || off >= rd.len() {
        Seq::empty()
    } else {
        let l = rd[off] as int;
        if off + 1 + l <= rd.len() {
            seq![rd.subrange(off + 1, off + 1 + l)] + txt_from(rd, off + 1 + l)
        } else {
            Seq::empty()
        }
    }
}

/// Each string read as lossy UTF-8.
pub open spec fn lossy_all(ts: Seq<Seq<u8>>) -> Seq<Seq<char>> {
    ts.map_values(|t: Seq<u8>| lossy_chars(t))
}

/// Decoding of the data of a record of type `rtype` whose `rdlen` octets start at `c`.
pub open spec fn rdata_parse(
    data: Seq<u8>,
    c: int,
    rdlen: int,
    rtype: u16,
    rclass: u16,
    ttl: u32,
) -> Result<RecordModel, DnsError> {
    let rd = data.subrange(c, c + rdlen);
    if rtype == DNS_TYPE_A && rdlen == 4 {
        Ok(RecordModel::A(ip4_at(data, c)))
    } else if rtype == DNS_TYPE_AAAA && rdlen == 16 {
        Ok(RecordModel::Aaaa(ip6_at(data, c)))
    } else if rtype == DNS_TYPE_CNAME {
        match qname_parse(data, c) {
            Ok((t, _)) => Ok(RecordModel::Cname(t)),
            Err(e) => Err(e),
        }
    } else if rtype == DNS_TYPE_PTR {
        match qname_parse(data, c) {
            Ok((t, _)) => Ok(RecordModel::Ptr(t)),
            Err(e) => Err(e),
        }
    } else if rtype == DNS_TYPE_NS {
        match qname_parse(data, c) {
            Ok((t, _)) => Ok(RecordModel::Ns(t)),
            Err(e) => Err(e),
        }
    } else if rtype == DNS_TYPE_MX && rdlen >= 2 {
        match qname_parse(data, c + 2) {
            Ok((t, _)) => Ok(RecordModel::Mx { preference: be16_at(data, c) as u16, exchange: t }),
            Err(e) => Err(e),
        }
    } else if rtype == DNS_TYPE_TXT {
        Ok(RecordModel::Txt(lossy_all(txt_from(rd, 0))))
    } else if rtype == DNS_TYPE_SRV && rdlen >= 6 {
        match qname_parse(data, c + 6) {
            Ok((t, _)) => Ok(
                RecordModel::Srv {
                    priority: be16_at(data, c) as u16,
                    weight: be16_at(data, c + 2) as u16,
                    port: be16_at(data, c + 4) as u16,
                    target: t,
                },
            ),
            Err(e) => Err(e),
        }
    } else if rtype == DNS_TYPE_SOA {
        match qname_parse(data, c) {
            Err(e) => Err(e),
            Ok((m, o1)) => match qname_parse(data, o1) {
                Err(e) => Err(e),
                Ok((r, o2)) => if o2 + 20 <= c + rdlen {
                    Ok(
                        RecordModel::Soa {
                            mname: m,
                            rname: r,
                            serial: be32_at(data, o2) as u32,
                            refresh: be32_at(data, o2 + 4) as u32,
                            retry: be32_at(data, o2 + 8) as u32,
                            expire: be32_at(data, o2 + 12) as u32,
                            minimum: be32_at(data, o2 + 16) as u32,
                        },
                    )
                } else {
                    Ok(RecordModel::Raw(rd))
                },
            },
        }
    } else if rtype == DNS_TYPE_OPT {
        Ok(
            RecordModel::Opt {
                udp_payload_size: rclass,
                ext_rcode: (ttl / 0x100_0000) as u8,
                version: ((ttl / 0x1_0000) % 256) as u8,
                flags: (ttl % 0x1_0000) as u16,
                data: rd,
            },
        )
    } else {
        Ok(RecordModel::Raw(rd))
    }
}

/// Decoding of the resource record at `off`: the record and the offset after it.
pub open spec fn record_parse(data: Seq<u8>, off: int) -> Result<(AnswerModel, int), DnsError> {
    match qname_parse(data, off) {
        Err(e) => Err(e),
        Ok((name, c)) => if c + 10 > data.len() {
            Err(DnsError::PacketTooShort(data.len() as usize))
        } else {
            let rtype = be16_at(data, c) as u16;
            let rclass = be16_at(data, c + 2) as u16;
            let ttl = be32_at(data, c + 4) as u32;
            let rdlen = be16_at(data, c + 8);
            let c2 = c + 10;
            if c2 + rdlen > data.len() {
                Err(DnsError::PacketTooShort(data.len() as usize))
            } else {
                match rdata_parse(data, c2, rdlen, rtype, rclass, ttl) {
                    Err(e) => Err(e),
                    Ok(d) => Ok(
                        (
                            AnswerModel {
                                name,
                                rtype,
                                rclass,
                                ttl,
                                ip: match d {
                                    RecordModel::A(ip) => ip,
                                    _ => Ipv4Address([0u8, 0u8, 0u8, 0u8]),
                                },
                                data: d,
                            },
                            c2 + rdlen,
                        ),
                    ),
                }
            }
        },
    }
}

/// Decoding of `n` records in a row from `off`.
pub open spec fn records_parse(data: Seq<u8>, off: int, n: nat) -> Result<(Seq<AnswerModel>, int), DnsError>
    decreases n,
{
    if n == 0 {
        Ok((Seq::empty(), off))
    } else {
        match records_parse(data, off, (n - 1) as nat) {
            Err(e) => Err(e),
            Ok((rs, o)) => match record_parse(data, o) {
                Err(e) => Err(e),
                Ok((r, o2)) => Ok((rs.push(r), o2)),
            },
        }
    }
}

/// Decoding of `n` questions in a row from `off`.
pub open spec fn questions_parse(data: Seq<u8>, off: int, n: nat) -> Result<(Seq<QuestionModel>, int), DnsError>
    decreases n,
{
    if n == 0 {
        Ok((Seq::empty(), off))
    } else {
        match questions_parse(data, off, (n - 1) as nat) {
            Err(e) => Err(e),
            Ok((qs, o)) => match qname_parse(data, o) {
                Err(e) => Err(e),
                Ok((name, o2)) => if o2 + 4 > data.len() {
                    Err(DnsError::PacketTooShort(data.len() as usize))
                } else {
                    Ok(
                        (
                            qs.push(
                                QuestionModel {
                                    name,
                                    qtype: be16_at(data, o2) as u16,
                                    qclass: be16_at(data, o2 + 2) as u16,
                                },
                            ),
                            o2 + 4,
                        ),
                    )
                },
            },
        }
    }
}

/// Decoding of a message: header flags and counts, then the questions and the answer,
/// authority and additional records.
pub open spec fn message_parse(data: Seq<u8>) -> Result<MessageModel, DnsError> {
    if data.len() < 12 {
        Err(DnsError::PacketTooShort(data.len() as usize))
    } else {
        let flags = be16_at(data, 2) as u16;
        match questions_parse(data, 12, be16_at(data, 4) as nat) {
            Err(e) => Err(e),
            Ok((qs, o1)) => match records_parse(data, o1, be16_at(data, 6) as nat) {
                Err(e) => Err(e),
                Ok((ans, o2)) => match records_parse(data, o2, be16_at(data, 8) as nat) {
                    Err(e) => Err(e),
                    Ok((auth, o3)) => match records_parse(data, o3, be16_at(data, 10) as nat) {
                        Err(e) => Err(e),
                        Ok((add, _)) => Ok(
                            MessageModel {
                                id: be16_at(data, 0) as u16,
                                is_response: flags & 0x8000u16 != 0,
                                recursion_desired: flags & 0x0100u16 != 0,
                                recursion_available: flags & 0x0080u16 != 0,
                                authoritative: flags & 0x0400u16 != 0,
                                truncated: flags & 0x0200u16 != 0,
                                rcode: (flags % 16) as u8,
                                questions: qs,
                                answers: ans,
                                authorities: auth,
                                additionals: add,
                            },
                        ),
                    },
                },
            },
        }
    }
}

fn parse_txt(data: &[u8], start: usize, end: usize) -> (r: Vec<String>)
    requires
        start <= end <= data@.len(),
    ensures
        strings_view(r@) == lossy_all(txt_from(data@.subrange(start as int, end as int), 0)),
{
    let ghost rd = data@.subrange(start as int, end as int);
    let mut texts: Vec<String> = Vec::new();
    let mut off: usize = 0;
    let len = end - start;
    assert(strings_view(texts@) + lossy_all(txt_from(rd, 0)) =~= lossy_all(txt_from(rd, 0)));
    while off < len
        invariant_except_break
            off <= len,
        invariant
            len == rd.len(),
            rd == data@.subrange(start as int, end as int),
            start <= end <= data@.len(),
            strings_view(texts@) + lossy_all(txt_from(rd, off as int)) == lossy_all(txt_from(rd, 0)),
        ensures
            txt_from(rd, off as int) =~= Seq::<Seq<u8>>::empty(),
        decreases len - off,
    {
        let slen = data[start + off] as usize;
        if slen + 1 <= len - off {
            let s = string_from_utf8_lossy(&slice_range(data, start + off + 1, start + off + 1 + slen));
            proof {
                let piece = rd.subrange(off + 1, off + 1 + slen);
                assert(piece =~= data@.subrange(start + off + 1, start + off + 1 + slen));
                assert(txt_from(rd, off as int) == seq![piece] + txt_from(rd, off + 1 + slen));
                assert(lossy_all(txt_from(rd, off as int)) =~= seq![lossy_chars(piece)] + lossy_all(txt_from(rd, off + 1 + slen)));
                assert(strings_view(texts@.push(s)) =~= strings_view(texts@) + seq![s@]);
            }
            texts.push(s);
            off = off + 1 + slen;
        } else {
            break;
        }
    }
    assert(txt_from(rd, off as int) =~= Seq::<Seq<u8>>::empty());
    assert(lossy_all(Seq::<Seq<u8>>::empty()) =~= Seq::<Seq<char>>::empty());
    assert(strings_view(texts@) + Seq::<Seq<char>>::empty() =~= strings_view(texts@));
    texts
}

fn slice_range(data: &[u8], start: usize, end: usize) -> (r: Vec<u8>)
    requires
        start <= end <= data@.len(),
    ensures
        r@ == data@.subrange(start as int, end as int),
{
    copy_range(data, start, end)
}

fn ip4_from(s: &[u8], i: usize) -> (r: Ipv4Address)
    requires
        i + 4 <= s@.len(),
    ensures
        r == ip4_at(s@, i as int),
{
    Ipv4Address([s[i], s[i + 1], s[i + 2], s[i + 3]])
}

fn ip6_from(s: &[u8], i: usize) -> (r: Ipv6Address)
    requires
        i + 16 <= s@.len(),
    ensures
        r == ip6_at(s@, i as int),
{
    Ipv6Address(
        [
            s[i],
            s[i + 1],
            s[i + 2],
            s[i + 3],
            s[i + 4],
            s[i + 5],
            s[i + 6],
            s[i + 7],
            s[i + 8],
            s[i + 9],
            s[i + 10],
            s[i + 11],
            s[i + 12],
            s[i + 13],
            s[i + 14],
            s[i + 15],
        ],
    )
}

fn parse_rdata(data: &[u8], c: usize, rdlength: usize, rtype: u16, rclass: u16, ttl: u32) -> (r: Result<DnsRecordData, DnsError>)
    requires
        c + rdlength <= data@.len(),
    ensures
        match r {
            Ok(d) => rdata_parse(data@, c as int, rdlength as int, rtype, rclass, ttl) == Ok::<RecordModel, DnsError>(d@),
            Err(e) => rdata_parse(data@, c as int, rdlength as int, rtype, rclass, ttl) == Err::<RecordModel, DnsError>(e),
        },
{
    let n = data.len();
    if rtype == DNS_TYPE_A && rdlength == 4 {
        Ok(DnsRecordData::A(ip4_from(data, c)))
    } else if rtype == DNS_TYPE_AAAA && rdlength == 16 {
        Ok(DnsRecordData::Aaaa(ip6_from(data, c)))
    } else if rtype == DNS_TYPE_CNAME {
        match decode_qname(data, c) {
            Ok((t, _)) => Ok(DnsRecordData::Cname(t)),
            Err(e) => Err(e),
        }
    } else if rtype == DNS_TYPE_PTR {
        match decode_qname(data, c) {
            Ok((t, _)) => Ok(DnsRecordData::Ptr(t)),
            Err(e) => Err(e),
        }
    } else if rtype == DNS_TYPE_NS {
        match decode_qname(data, c) {
            Ok((t, _)) => Ok(DnsRecordData::Ns(t)),
            Err(e) => Err(e),
        }
    } else if rtype == DNS_TYPE_MX && rdlength >= 2 {
        let preference = read_u16(data, c);
        match decode_qname(data, c + 2) {
            Ok((t, _)) => Ok(DnsRecordData::Mx { preference, exchange: t }),
            Err(e) => Err(e),
        }
    } else if rtype == DNS_TYPE_TXT {
        Ok(DnsRecordData::Txt(parse_txt(data, c, c + rdlength)))
    } else if rtype == DNS_TYPE_SRV && rdlength >= 6 {
        let priority = read_u16(data, c);
        let weight = read_u16(data, c + 2);
        let port = read_u16(data, c + 4);
        match decode_qname(data, c + 6) {
            Ok((t, _)) => Ok(DnsRecordData::Srv { priority, weight, port, target: t }),
            Err(e) => Err(e),
        }
    } else if rtype == DNS_TYPE_SOA {
        let (mname, off1) = match decode_qname(data, c) {
            Ok(x) => x,
            Err(e) => {
                return Err(e);
            },
        };
        let (rname, off2) = match decode_qname(data, off1) {
            Ok(x) => x,
            Err(e) => {
                return Err(e);
            },
        };
        if off2 <= c + rdlength && 20 <= c + rdlength - off2 {
            Ok(
                DnsRecordData::Soa {
                    mname,
                    rname,
                    serial: read_u32(data, off2),
                    refresh: read_u32(data, off2 + 4),
                    retry: read_u32(data, off2 + 8),
                    expire: read_u32(data, off2 + 12),
                    minimum: read_u32(data, off2 + 16),
                },
            )
        } else {
            Ok(DnsRecordData::Raw(slice_range(data, c, c + rdlength)))
        }
    } else if rtype == DNS_TYPE_OPT {
        Ok(
            DnsRecordData::Opt {
                udp_payload_size: rclass,
                ext_rcode: (ttl / 0x100_0000) as u8,
                version: ((ttl / 0x1_0000) % 256) as u8,
                flags: (ttl % 0x1_0000) as u16,
                data: slice_range(data, c, c + rdlength),
            },
        )
    } else {
        Ok(DnsRecordData::Raw(slice_range(data, c, c + rdlength)))
    }
}

fn parse_resource_record(data: &[u8], offset: usize) -> (r: Result<(DnsAnswer, usize), DnsError>)
    ensures
        match r {
            Ok((a, n)) => record_parse(data@, offset as int) == Ok::<(AnswerModel, int), DnsError>((a@, n as int)),
            Err(e) => record_parse(data@, offset as int) == Err::<(AnswerModel, int), DnsError>(e),
        },
{
    let (name, curr_off) = match decode_qname(data, offset) {
        Ok(x) => x,
        Err(e) => {
            return Err(e);
        },
    };
    if curr_off > data.len() || data.len() - curr_off < 10 {
        return Err(DnsError::PacketTooShort(data.len()));
    }
    let rtype = read_u16(data, curr_off);
    let rclass = read_u16(data, curr_off + 2);
    let ttl = read_u32(data, curr_off + 4);
    let rdlength = read_u16(data, curr_off + 8) as usize;
    let c2 = curr_off + 10;
    if rdlength > data.len() - c2 {
        return Err(DnsError::PacketTooShort(data.len()));
    }
    let parsed = match parse_rdata(data, c2, rdlength, rtype, rclass, ttl) {
        Ok(d) => d,
        Err(e) => {
            return Err(e);
        },
    };
    let ip = match &parsed {
        DnsRecordData::A(ip) => *ip,
        _ => Ipv4Address([0, 0, 0, 0]),
    };
    Ok((DnsAnswer { name, rtype, rclass, ttl, ip, data: parsed }, c2 + rdlength))
}

fn parse_records(data: &[u8], offset: usize, count: u16) -> (r: Result<(Vec<DnsAnswer>, usize), DnsError>)
    ensures
        match r {
            Ok((v, n)) => records_parse(data@, offset as int, count as nat) == Ok::<(Seq<AnswerModel>, int), DnsError>((answers_view(v@), n as int)),
            Err(e) => records_parse(data@, offset as int, count as nat) == Err::<(Seq<AnswerModel>, int), DnsError>(e),
        },
{
    let mut out: Vec<DnsAnswer> = Vec::new();
    let mut off = offset;
    let mut i: u16 = 0;
    assert(answers_view(out@) =~= Seq::<AnswerModel>::empty());
    while i < count
        invariant
            i <= count,
            records_parse(data@, offset as int, i as nat) == Ok::<(Seq<AnswerModel>, int), DnsError>((answers_view(out@), off as int)),
        decreases count - i,
    {
        match parse_resource_record(data, off) {
            Ok((rec, next)) => {
                proof {
                    assert(answers_view(out@.push(rec)) =~= answers_view(out@).push(rec@));
                }
                out.push(rec);
                off = next;
            },
            Err(e) => {
                proof {
                    lemma_records_err_stays(data@, offset as int, (i + 1) as nat, count as nat);
                }
                return Err(e);
            },
        }
        i = i + 1;
    }
    Ok((out, off))
}

proof fn lemma_records_err_stays(data: Seq<u8>, off: int, m: nat, n: nat)
    requires
        m <= n,
        records_parse(data, off, m) is Err,
    ensures
        records_parse(data, off, n) == records_parse(data, off, m),
    decreases n - m,
{
    if m < n {
        lemma_records_err_stays(data, off, m, (n - 1) as nat);
    }
}

proof fn lemma_questions_err_stays(data: Seq<u8>, off: int, m: nat, n: nat)
    requires
        m <= n,
        questions_parse(data, off, m) is Err,
    ensures
        questions_parse(data, off, n) == questions_parse(data, off, m),
    decreases n - m,
{
    if m < n {
        lemma_questions_err_stays(data, off, m, (n - 1) as nat);
    }
}

impl DnsMessage {
    /// Decodes a complete message.
    pub fn parse(data: &[u8]) -> (r: Result<Self, DnsError>)
        ensures
            match r {
                Ok(m) => message_parse(data@) == Ok::<MessageModel, DnsError>(m@),
                Err(e) => message_parse(data@) == Err::<MessageModel, DnsError>(e),
            },
    {
        if data.len() < 12 {
            return Err(DnsError::PacketTooShort(data.len()));
        }
        let id = read_u16(data, 0);
        let flags = read_u16(data, 2);
        let qdcount = read_u16(data, 4);
        let ancount = read_u16(data, 6);
        let nscount = read_u16(data, 8);
        let arcount = read_u16(data, 10);
        let mut offset: usize = 12;
        let mut questions: Vec<DnsQuestion> = Vec::new();
        let mut i: u16 = 0;
        assert(questions_view(questions@) =~= Seq::<QuestionModel>::empty());
        while i < qdcount
            invariant
                i <= qdcount,
                data@.len() >= 12,
                qdcount == be16_at(data@, 4),
                questions_parse(data@, 12, i as nat) == Ok::<(Seq<QuestionModel>, int), DnsError>((questions_view(questions@), offset as int)),
            decreases qdcount - i,
        {
            let (name, next_off) = match decode_qname(data, offset) {
                Ok(x) => x,
                Err(e) => {
                    proof {
                        lemma_questions_err_stays(data@, 12, (i + 1) as nat, qdcount as nat);
                    }
                    return Err(e);
                },
            };
            if next_off > data.len() || data.len() - next_off < 4 {
                proof {
                    lemma_questions_err_stays(data@, 12, (i + 1) as nat, qdcount as nat);
                }
                return Err(DnsError::PacketTooShort(data.len()));
            }
            let qtype = read_u16(data, next_off);
            let qclass = read_u16(data, next_off + 2);
            let q = DnsQuestion { name, qtype, qclass };
            proof {
                assert(questions_view(questions@.push(q)) =~= questions_view(questions@).push(q@));
            }
            questions.push(q);
            offset = next_off + 4;
            i = i + 1;
        }
        let (answers, o2) = match parse_records(data, offset, ancount) {
            Ok(x) => x,
            Err(e) => {
                return Err(e);
            },
        };
        let (authorities, o3) = match parse_records(data, o2, nscount) {
            Ok(x) => x,
            Err(e) => {
                return Err(e);
            },
        };
        let (additionals, _) = match parse_records(data, o3, arcount) {
            Ok(x) => x,
            Err(e) => {
                return Err(e);
            },
        };
        Ok(
            DnsMessage {
                id,
                is_response: (flags & 0x8000) != 0,
                recursion_desired: (flags & 0x0100) != 0,
                recursion_available: (flags & 0x0080) != 0,
                authoritative: (flags & 0x0400) != 0,
                truncated: (flags & 0x0200) != 0,
                rcode: (flags % 16) as u8,
                questions,
                answers,
                authorities,
                additionals,
            },
        )
    }
}

} // verus!

verus! {

// ---------------------------------------------------------------------------
// Builders
// ---------------------------------------------------------------------------

/// The 12-octet header with the given identifier, flags and question and answer counts.
pub open spec fn header_bytes(id: u16, flags: u16, qd: u16, an: u16) -> Seq<u8> {
    u16_bytes(id) + u16_bytes(flags) + u16_bytes(qd) + u16_bytes(an) + u16_bytes(0) + u16_bytes(0)
}

/// A query (flags 0x0100, recursion desired) with one question for `name` of class IN.
#[verifier::opaque]
pub open spec fn query_bytes(id: u16, name: Seq<u8>, qtype: u16) -> Seq<u8> {
    header_bytes(id, 0x0100, 1, 0) + name_bytes(name) + u16_bytes(qtype) + u16_bytes(DNS_CLASS_IN)
}

/// An authoritative response (flags 0x8180) with the question for `name` and one answer of
/// the same type and class IN whose owner is a pointer to the question name at offset 12.
#[verifier::opaque]
pub open spec fn response_bytes(id: u16, name: Seq<u8>, rtype: u16, ttl: u32, rdata: Seq<u8>) -> Seq<u8> {
    header_bytes(id, 0x8180, 1, 1) + name_bytes(name) + u16_bytes(rtype) + u16_bytes(DNS_CLASS_IN)
        + u16_bytes(0xC00C) + u16_bytes(rtype) + u16_bytes(DNS_CLASS_IN) + u32_bytes(ttl) + u16_bytes(
        (rdata.len() % 0x1_0000) as u16,
    ) + rdata
}

/// TXT data: each string as a length octet and at most 255 of its octets.
pub open spec fn txt_rdata(ts: Seq<Seq<u8>>) -> Seq<u8>
    decreases ts.len(),
{
    if ts.len() == 0 {
        Seq::empty()
    } else {
        let b = ts[0];
        let l: int = if b.len() < 255 {
            b.len() as int
        } else {
            255
        };
        seq![l as u8] + b.take(l) + txt_rdata(ts.skip(1))
    }
}

/// The decimal digits of an octet.
pub open spec fn decimal_digits(v: u8) -> Seq<u8> {
    if v < 10 {
        seq![(48 + v) as u8]
    } else if v < 100 {
        seq![(48 + v / 10) as u8, (48 + v % 10) as u8]
    } else {
        seq![(48 + v / 100) as u8, (48 + (v / 10) % 10) as u8, (48 + v % 10) as u8]
    }
}

/// The lowercase hexadecimal digit of a value below 16.
pub open spec fn hex_digit(n: int) -> u8 {
    if n < 10 {
        (48 + n) as u8
    } else {
        (87 + n) as u8
    }
}

pub open spec fn in_addr_arpa() -> Seq<u8> {
    seq![0x2Eu8, 0x69, 0x6E, 0x2D, 0x61, 0x64, 0x64, 0x72, 0x2E, 0x61, 0x72, 0x70, 0x61]
}

pub open spec fn ip6_arpa() -> Seq<u8> {
    seq![0x69u8, 0x70, 0x36, 0x2E, 0x61, 0x72, 0x70, 0x61]
}

/// The reverse-lookup name "d.c.b.a.in-addr.arpa" of the IPv4 address a.b.c.d.
pub open spec fn ptr_name_v4(ip: Ipv4Address) -> Seq<u8> {
    decimal_digits(ip.0@[3]) + seq![0x2Eu8] + decimal_digits(ip.0@[2]) + seq![0x2Eu8]
        + decimal_digits(ip.0@[1]) + seq![0x2Eu8] + decimal_digits(ip.0@[0]) + in_addr_arpa()
}

/// The nibble labels of the octets `b[0..n]`, last octet first, low nibble before high.
pub open spec fn nibble_labels(b: Seq<u8>, n: int) -> Seq<u8>
    decreases n,
{
    if n <= 0 {
        Seq::empty()
    } else {
        seq![hex_digit((b[n - 1] % 16) as int), 0x2Eu8, hex_digit((b[n - 1] / 16) as int), 0x2Eu8]
            + nibble_labels(b, n - 1)
    }
}

/// The reverse-lookup name of an IPv6 address under ip6.arpa.
pub open spec fn ptr_name_v6(ip: Ipv6Address) -> Seq<u8> {
    nibble_labels(ip.0@, 16) + ip6_arpa()
}

fn push_header(buf: &mut Vec<u8>, id: u16, flags: u16, qd: u16, an: u16)
    ensures
        final(buf)@ == old(buf)@ + header_bytes(id, flags, qd, an),
{
    let ghost before = buf@;
    push_u16(buf, id);
    push_u16(buf, flags);
    push_u16(buf, qd);
    push_u16(buf, an);
    push_u16(buf, 0);
    push_u16(buf, 0);
    assert(buf@ =~= before + header_bytes(id, flags, qd, an));
}

fn build_query_bytes(id: u16, name: &[u8], qtype: u16) -> (r: Vec<u8>)
    ensures
        r@ == query_bytes(id, name@, qtype),
{
    let mut buf: Vec<u8> = Vec::new();
    push_header(&mut buf, id, 0x0100, 1, 0);
    encode_name_bytes(name, &mut buf);
    push_u16(&mut buf, qtype);
    push_u16(&mut buf, DNS_CLASS_IN);
    reveal(query_bytes);
    assert(buf@ =~= query_bytes(id, name@, qtype));
    buf
}

fn build_response_bytes(id: u16, name: &[u8], rtype: u16, ttl: u32, rdata: &[u8]) -> (r: Vec<u8>)
    ensures
        r@ == response_bytes(id, name@, rtype, ttl, rdata@),
{
    let mut buf: Vec<u8> = Vec::new();
    push_header(&mut buf, id, 0x8180, 1, 1);
    encode_name_bytes(name, &mut buf);
    push_u16(&mut buf, rtype);
    push_u16(&mut buf, DNS_CLASS_IN);
    push_u16(&mut buf, 0xC00C);
    push_u16(&mut buf, rtype);
    push_u16(&mut buf, DNS_CLASS_IN);
    push_u32(&mut buf, ttl);
    push_u16(&mut buf, (rdata.len() % 0x1_0000) as u16);
    push_all(&mut buf, rdata);
    reveal(response_bytes);
    assert(buf@ =~= response_bytes(id, name@, rtype, ttl, rdata@));
    buf
}

fn push_decimal(buf: &mut Vec<u8>, v: u8)
    ensures
        final(buf)@ == old(buf)@ + decimal_digits(v),
{
    let ghost before = buf@;
    if v < 10 {
        buf.push(48 + v);
    } else if v < 100 {
        buf.push(48 + v / 10);
        buf.push(48 + v % 10);
    } else {
        buf.push(48 + v / 100);
        buf.push(48 + (v / 10) % 10);
        buf.push(48 + v % 10);
    }
    assert(buf@ =~= before + decimal_digits(v));
}

fn hex_digit_of(n: u8) -> (r: u8)
    requires
        n < 16,
    ensures
        r == hex_digit(n as int),
{
    if n < 10 {
        48 + n
    } else {
        87 + n
    }
}

impl DnsMessage {
    /// A query for the IPv4 address (type A) of `hostname`.
    pub fn build_query(id: u16, hostname: &str) -> (r: Vec<u8>)
        ensures
            r@ == query_bytes(id, hostname.spec_bytes(), DNS_TYPE_A),
    {
        Self::build_typed_query(id, hostname, DNS_TYPE_A)
    }

    /// A query for records of type `qtype` of `hostname`.
    pub fn build_typed_query(id: u16, hostname: &str, qtype: u16) -> (r: Vec<u8>)
        ensures
            r@ == query_bytes(id, hostname.spec_bytes(), qtype),
    {
        build_query_bytes(id, hostname.as_bytes(), qtype)
    }

    /// A query for the IPv6 address (type AAAA) of `hostname`.
    pub fn build_aaaa_query(id: u16, hostname: &str) -> (r: Vec<u8>)
        ensures
            r@ == query_bytes(id, hostname.spec_bytes(), DNS_TYPE_AAAA),
    {
        Self::build_typed_query(id, hostname, DNS_TYPE_AAAA)
    }

    /// A PTR query for the in-addr.arpa name of `ip`.
    pub fn build_ptr_query_v4(id: u16, ip: Ipv4Address) -> (r: Vec<u8>)
        ensures
            r@ == query_bytes(id, ptr_name_v4(ip), DNS_TYPE_PTR),
    {
        let mut name: Vec<u8> = Vec::new();
        push_decimal(&mut name, ip.0[3]);
        name.push(0x2E);
        push_decimal(&mut name, ip.0[2]);
        name.push(0x2E);
        push_decimal(&mut name, ip.0[1]);
        name.push(0x2E);
        push_decimal(&mut name, ip.0[0]);
        let suffix: [u8; 13] = [0x2E, 0x69, 0x6E, 0x2D, 0x61, 0x64, 0x64, 0x72, 0x2E, 0x61, 0x72, 0x70, 0x61];
        let ghost before = name@;
        let mut i: usize = 0;
        while i < 13
            invariant
                i <= 13,
                suffix@ == in_addr_arpa(),
                name@ == before + suffix@.subrange(0, i as int),
            decreases 13 - i,
        {
            name.push(suffix[i]);
            i = i + 1;
            assert(name@ =~= before + suffix@.subrange(0, i as int));
        }
        assert(name@ =~= ptr_name_v4(ip));
        build_query_bytes(id, name.as_slice(), DNS_TYPE_PTR)
    }

    /// A PTR query for the ip6.arpa name of `ip`.
    pub fn build_ptr_query_v6(id: u16, ip: Ipv6Address) -> (r: Vec<u8>)
        ensures
            r@ == query_bytes(id, ptr_name_v6(ip), DNS_TYPE_PTR),
    {
        let mut name: Vec<u8> = Vec::new();
        let mut n: usize = 16;
        assert(name@ + nibble_labels(ip.0@, 16) =~= nibble_labels(ip.0@, 16));
        while n > 0
            invariant
                n <= 16,
                name@ + nibble_labels(ip.0@, n as int) == nibble_labels(ip.0@, 16),
            decreases n,
        {
            let b = ip.0[n - 1];
            name.push(hex_digit_of(b % 16));
            name.push(0x2E);
            name.push(hex_digit_of(b / 16));
            name.push(0x2E);
            n = n - 1;
            assert(name@ + nibble_labels(ip.0@, n as int) =~= nibble_labels(ip.0@, 16));
        }
        let suffix: [u8; 8] = [0x69, 0x70, 0x36, 0x2E, 0x61, 0x72, 0x70, 0x61];
        let ghost before = name@;
        let mut i: usize = 0;
        while i < 8
            invariant
                i <= 8,
                suffix@ == ip6_arpa(),
                name@ == before + suffix@.subrange(0, i as int),
            decreases 8 - i,
        {
            name.push(suffix[i]);
            i = i + 1;
            assert(name@ =~= before + suffix@.subrange(0, i as int));
        }
        assert(nibble_labels(ip.0@, 0) =~= Seq::<u8>::empty());
        assert(name@ =~= ptr_name_v6(ip));
        build_query_bytes(id, name.as_slice(), DNS_TYPE_PTR)
    }

    /// A response with one A record for `hostname`.
    pub fn build_response(id: u16, hostname: &str, ip: Ipv4Address, ttl: u32) -> (r: Vec<u8>)
        ensures
            r@ == response_bytes(id, hostname.spec_bytes(), DNS_TYPE_A, ttl, ip.0@),
    {
        let rdata: [u8; 4] = ip.0;
        let v = copy_array4(&rdata);
        build_response_bytes(id, hostname.as_bytes(), DNS_TYPE_A, ttl, v.as_slice())
    }

    /// A response with one AAAA record for `hostname`.
    pub fn build_aaaa_response(id: u16, hostname: &str, ip: Ipv6Address, ttl: u32) -> (r: Vec<u8>)
        ensures
            r@ == response_bytes(id, hostname.spec_bytes(), DNS_TYPE_AAAA, ttl, ip.0@),
    {
        let mut v: Vec<u8> = Vec::new();
        let mut i: usize = 0;
        while i < 16
            invariant
                i <= 16,
                v@ == ip.0@.subrange(0, i as int),
            decreases 16 - i,
        {
            v.push(ip.0[i]);
            i = i + 1;
            assert(v@ =~= ip.0@.subrange(0, i as int));
        }
        assert(ip.0@.subrange(0, 16) =~= ip.0@);
        build_response_bytes(id, hostname.as_bytes(), DNS_TYPE_AAAA, ttl, v.as_slice())
    }

    /// A response with one CNAME record pointing `hostname` at `target`.
    pub fn build_cname_response(id: u16, hostname: &str, target: &str, ttl: u32) -> (r: Vec<u8>)
        ensures
            r@ == response_bytes(id, hostname.spec_bytes(), DNS_TYPE_CNAME, ttl, name_bytes(target.spec_bytes())),
    {
        let mut rdata: Vec<u8> = Vec::new();
        encode_qname(target, &mut rdata);
        build_response_bytes(id, hostname.as_bytes(), DNS_TYPE_CNAME, ttl, rdata.as_slice())
    }

    /// A response with one PTR record pointing `ptr_name` at `target`.
    pub fn build_ptr_response(id: u16, ptr_name: &str, target: &str, ttl: u32) -> (r: Vec<u8>)
        ensures
            r@ == response_bytes(id, ptr_name.spec_bytes(), DNS_TYPE_PTR, ttl, name_bytes(target.spec_bytes())),
    {
        let mut rdata: Vec<u8> = Vec::new();
        encode_qname(target, &mut rdata);
        build_response_bytes(id, ptr_name.as_bytes(), DNS_TYPE_PTR, ttl, rdata.as_slice())
    }

    /// A response with one TXT record holding `texts`.
    pub fn build_txt_response(id: u16, hostname: &str, texts: &[&str], ttl: u32) -> (r: Vec<u8>)
        ensures
            r@ == response_bytes(id, hostname.spec_bytes(), DNS_TYPE_TXT, ttl, txt_rdata(texts@.map_values(|t: &str| t.spec_bytes()))),
    {
        let ghost ts = texts@.map_values(|t: &str| t.spec_bytes());
        let mut rdata: Vec<u8> = Vec::new();
        let mut i: usize = 0;
        assert(ts.skip(0) =~= ts);
        assert(rdata@ + txt_rdata(ts.skip(0)) =~= txt_rdata(ts));
        while i < texts.len()
            invariant
                i <= texts@.len(),
                ts == texts@.map_values(|t: &str| t.spec_bytes()),
                rdata@ + txt_rdata(ts.skip(i as int)) == txt_rdata(ts),
            decreases texts@.len() - i,
        {
            let bytes = texts[i].as_bytes();
            let len: usize = if bytes.len() < 255 {
                bytes.len()
            } else {
                255
            };
            rdata.push(len as u8);
            let piece = copy_range(bytes, 0, len);
            push_all(&mut rdata, piece.as_slice());
            proof {
                let rest = ts.skip(i as int);
                assert(rest[0] == bytes@);
                assert(rest.skip(1) =~= ts.skip(i + 1));
                assert(bytes@.take(len as int) =~= piece@);
            }
            i = i + 1;
            assert(rdata@ + txt_rdata(ts.skip(i as int)) =~= txt_rdata(ts));
        }
        build_response_bytes(id, hostname.as_bytes(), DNS_TYPE_TXT, ttl, rdata.as_slice())
    }

    /// A response with one MX record.
    pub fn build_mx_response(id: u16, hostname: &str, preference: u16, exchange: &str, ttl: u32) -> (r: Vec<u8>)
        ensures
            r@ == response_bytes(id, hostname.spec_bytes(), DNS_TYPE_MX, ttl, u16_bytes(preference) + name_bytes(exchange.spec_bytes())),
    {
        let mut rdata: Vec<u8> = Vec::new();
        push_u16(&mut rdata, preference);
        encode_qname(exchange, &mut rdata);
        assert(rdata@ =~= u16_bytes(preference) + name_bytes(exchange.spec_bytes()));
        build_response_bytes(id, hostname.as_bytes(), DNS_TYPE_MX, ttl, rdata.as_slice())
    }

    /// A response with one SRV record.
    pub fn build_srv_response(
        id: u16,
        hostname: &str,
        priority: u16,
        weight: u16,
        port: u16,
        target: &str,
        ttl: u32,
    ) -> (r: Vec<u8>)
        ensures
            r@ == response_bytes(id, hostname.spec_bytes(), DNS_TYPE_SRV, ttl, u16_bytes(priority) + u16_bytes(weight) + u16_bytes(port) + name_bytes(target.spec_bytes())),
    {
        let mut rdata: Vec<u8> = Vec::new();
        push_u16(&mut rdata, priority);
        push_u16(&mut rdata, weight);
        push_u16(&mut rdata, port);
        encode_qname(target, &mut rdata);
        assert(rdata@ =~= u16_bytes(priority) + u16_bytes(weight) + u16_bytes(port) + name_bytes(target.spec_bytes()));
        build_response_bytes(id, hostname.as_bytes(), DNS_TYPE_SRV, ttl, rdata.as_slice())
    }

    /// An authoritative name-error response (flags 0x8183) carrying only the question.
    pub fn build_nxdomain_response(id: u16, hostname: &str, qtype: u16) -> (r: Vec<u8>)
        ensures
            r@ == header_bytes(id, 0x8183, 1, 0) + name_bytes(hostname.spec_bytes()) + u16_bytes(qtype) + u16_bytes(DNS_CLASS_IN),
    {
        let mut buf: Vec<u8> = Vec::new();
        push_header(&mut buf, id, 0x8183, 1, 0);
        encode_qname(hostname, &mut buf);
        push_u16(&mut buf, qtype);
        push_u16(&mut buf, DNS_CLASS_IN);
        assert(buf@ =~= header_bytes(id, 0x8183, 1, 0) + name_bytes(hostname.spec_bytes()) + u16_bytes(qtype) + u16_bytes(DNS_CLASS_IN));
        buf
    }
}

fn copy_array4(a: &[u8; 4]) -> (r: Vec<u8>)
    ensures
        r@ == a@,
{
    let mut v: Vec<u8> = Vec::new();
    v.push(a[0]);
    v.push(a[1]);
    v.push(a[2]);
    v.push(a[3]);
    assert(v@ =~= a@);
    v
}

} // verus!

verus! {

// ---------------------------------------------------------------------------
// Cache
// ---------------------------------------------------------------------------

fn copy_strings(v: &Vec<String>) -> (r: Vec<String>)
    ensures
        strings_view(r@) == strings_view(v@),
{
    let mut out: Vec<String> = Vec::new();
    let mut i: usize = 0;
    while i < v.len()
        invariant
            i <= v@.len(),
            strings_view(out@) == strings_view(v@.subrange(0, i as int)),
        decreases v@.len() - i,
    {
        let c = v[i].clone();
        assert(c@ == v@[i as int]@);
        let ghost o0 = out@;
        out.push(c);
        i = i + 1;
        assert(strings_view(out@) =~= strings_view(o0).push(c@));
        assert(strings_view(v@.subrange(0, i as int)) =~= strings_view(v@.subrange(0, i - 1)).push(v@[i - 1]@));
    }
    assert(v@.subrange(0, i as int) =~= v@);
    out
}

impl DnsRecordData {
    /// A copy of this record data.
    pub fn copy(&self) -> (r: Self)
        ensures
            r@ == self@,
    {
        match self {
            DnsRecordData::A(ip) => DnsRecordData::A(*ip),
            DnsRecordData::Aaaa(ip) => DnsRecordData::Aaaa(*ip),
            DnsRecordData::Cname(s) => DnsRecordData::Cname(s.clone()),
            DnsRecordData::Ptr(s) => DnsRecordData::Ptr(s.clone()),
            DnsRecordData::Txt(v) => DnsRecordData::Txt(copy_strings(v)),
            DnsRecordData::Mx { preference, exchange } => DnsRecordData::Mx {
                preference: *preference,
                exchange: exchange.clone(),
            },
            DnsRecordData::Ns(s) => DnsRecordData::Ns(s.clone()),
            DnsRecordData::Srv { priority, weight, port, target } => DnsRecordData::Srv {
                priority: *priority,
                weight: *weight,
                port: *port,
                target: target.clone(),
            },
            DnsRecordData::Soa { mname, rname, serial, refresh, retry, expire, minimum } =>
                DnsRecordData::Soa {
                mname: mname.clone(),
                rname: rname.clone(),
                serial: *serial,
                refresh: *refresh,
                retry: *retry,
                expire: *expire,
                minimum: *minimum,
            },
            DnsRecordData::Opt { udp_payload_size, ext_rcode, version, flags, data } =>
                DnsRecordData::Opt {
                udp_payload_size: *udp_payload_size,
                ext_rcode: *ext_rcode,
                version: *version,
                flags: *flags,
                data: to_vec(data.as_slice()),
            },
            DnsRecordData::Raw(d) => DnsRecordData::Raw(to_vec(d.as_slice())),
        }
    }
}

impl DnsAnswer {
    /// A copy of this record with its TTL replaced.
    pub fn with_ttl(&self, ttl: u32) -> (r: Self)
        ensures
            r@ == (AnswerModel { ttl, ..self@ }),
    {
        DnsAnswer {
            name: self.name.clone(),
            rtype: self.rtype,
            rclass: self.rclass,
            ttl,
            ip: self.ip,
            data: self.data.copy(),
        }
    }
}

/// A cached answer set.
pub struct EntryModel {
    pub records: Seq<AnswerModel>,
    pub nxdomain: bool,
    pub inserted_at_secs: u64,
    pub ttl_secs: u32,
}

#[derive(Debug, Clone)]
struct CachedEntry {
    records: Vec<DnsAnswer>,
    nxdomain: bool,
    inserted_at_secs: u64,
    ttl_secs: u32,
}

#[derive(Debug, Clone)]
struct CacheSlot {
    name: String,
    qtype: u16,
    entry: CachedEntry,
}

spec fn slot_key(s: CacheSlot) -> (Seq<char>, u16) {
    (s.name@, s.qtype)
}

spec fn slot_entry(s: CacheSlot) -> EntryModel {
    EntryModel {
        records: answers_view(s.entry.records@),
        nxdomain: s.entry.nxdomain,
        inserted_at_secs: s.entry.inserted_at_secs,
        ttl_secs: s.entry.ttl_secs,
    }
}

spec fn slots_unique(s: Seq<CacheSlot>) -> bool {
    forall|i: int, j: int| 0 <= i < j < s.len() ==> slot_key(s[i]) != slot_key(s[j])
}

spec fn slots_view(s: Seq<CacheSlot>) -> Map<(Seq<char>, u16), EntryModel> {
    Map::new(
        |k: (Seq<char>, u16)| exists|i: int| 0 <= i < s.len() && slot_key(s[i]) == k,
        |k: (Seq<char>, u16)| slot_entry(s[choose|i: int| 0 <= i < s.len() && slot_key(s[i]) == k]),
    )
}

proof fn lemma_slots_view_index(s: Seq<CacheSlot>, i: int)
    requires
        slots_unique(s),
        0 <= i < s.len(),
    ensures
        slots_view(s).contains_key(slot_key(s[i])),
        slots_view(s)[slot_key(s[i])] == slot_entry(s[i]),
{
    let k = slot_key(s[i]);
    assert(exists|j: int| 0 <= j < s.len() && slot_key(s[j]) == k);
    let c = choose|j: int| 0 <= j < s.len() && slot_key(s[j]) == k;
    if c != i {
        if c < i {
            assert(slot_key(s[c]) != slot_key(s[i]));
        } else {
            assert(slot_key(s[i]) != slot_key(s[c]));
        }
    }
}

/// The smallest TTL of the records (60 for none).
pub open spec fn min_ttl(rs: Seq<AnswerModel>) -> u32
    decreases rs.len(),
{
    if rs.len() == 0 {
        60
    } else if rs.len() == 1 {
        rs[0].ttl
    } else {
        let m = min_ttl(rs.drop_last());
        if rs.last().ttl < m {
            rs.last().ttl
        } else {
            m
        }
    }
}

/// The records with their TTL replaced.
pub open spec fn records_with_ttl(rs: Seq<AnswerModel>, ttl: u32) -> Seq<AnswerModel> {
    rs.map_values(|a: AnswerModel| AnswerModel { ttl, ..a })
}

/// The seconds since insertion, zero for a clock before the insertion.
pub open spec fn age(e: EntryModel, now: u64) -> int {
    if now >= e.inserted_at_secs {
        now - e.inserted_at_secs
    } else {
        0
    }
}

pub open spec fn is_live(e: EntryModel, now: u64) -> bool {
    age(e, now) < e.ttl_secs
}

/// What a lookup answers for an entry: nothing once expired, the name error for a negative
/// entry, else the records with their remaining TTL.
pub open spec fn lookup_result(e: Option<EntryModel>, now: u64) -> Option<Result<Seq<AnswerModel>, ()>> {
    match e {
        None => None,
        Some(e) => if is_live(e, now) {
            if e.nxdomain {
                Some(Err(()))
            } else {
                Some(Ok(records_with_ttl(e.records, (e.ttl_secs - age(e, now)) as u32)))
            }
        } else {
            None
        },
    }
}

/// The entries of `m` still live at `now`.
pub open spec fn live_entries(m: Map<(Seq<char>, u16), EntryModel>, now: u64) -> Map<(Seq<char>, u16), EntryModel> {
    Map::new(|k: (Seq<char>, u16)| m.contains_key(k) && is_live(m[k], now), |k: (Seq<char>, u16)| m[k])
}

/// Records stored at `at` are read back at `now`, with the time they have left, from the
/// moment of storing until the smallest of their TTLs has passed; from then on the lookup
/// finds nothing. Storing under one key changes no lookup under another.
pub proof fn lemma_insert_then_lookup(
    m: Map<(Seq<char>, u16), EntryModel>,
    key: (Seq<char>, u16),
    other: (Seq<char>, u16),
    rs: Seq<AnswerModel>,
    at: u64,
    now: u64,
)
    requires
        rs.len() > 0,
        at <= now,
    ensures
        ({
            let m1 = m.insert(key, EntryModel { records: rs, nxdomain: false, inserted_at_secs: at, ttl_secs: min_ttl(rs) });
            &&& now < at + min_ttl(rs) ==> lookup_result(m1.get(key), now) == Some(
                Ok::<Seq<AnswerModel>, ()>(records_with_ttl(rs, (at + min_ttl(rs) - now) as u32)),
            )
            &&& now >= at + min_ttl(rs) ==> lookup_result(m1.get(key), now) is None
            &&& other != key ==> lookup_result(m1.get(other), now) == lookup_result(m.get(other), now)
        }),
{
}

/// A name error stored at `at` with the TTL `ttl` is answered as such until `ttl` seconds
/// (at least one) have passed, and not afterwards.
pub proof fn lemma_negative_then_lookup(
    m: Map<(Seq<char>, u16), EntryModel>,
    key: (Seq<char>, u16),
    ttl: u32,
    at: u64,
    now: u64,
)
    requires
        at <= now,
    ensures
        ({
            let t: u32 = if ttl > 1 { ttl } else { 1 };
            let m1 = m.insert(key, EntryModel { records: Seq::empty(), nxdomain: true, inserted_at_secs: at, ttl_secs: t });
            &&& now < at + t ==> lookup_result(m1.get(key), now) == Some(Err::<Seq<AnswerModel>, ()>(()))
            &&& now >= at + t ==> lookup_result(m1.get(key), now) is None
        }),
{
}

/// Purging the entries expired at `now` changes no lookup made at `now`.
pub proof fn lemma_purge_keeps_lookups(m: Map<(Seq<char>, u16), EntryModel>, key: (Seq<char>, u16), now: u64)
    ensures
        lookup_result(live_entries(m, now).get(key), now) == lookup_result(m.get(key), now),
{
}

/// The IPv4 addresses of the A records among `rs`.
pub open spec fn a_addrs(rs: Seq<AnswerModel>) -> Seq<Ipv4Address>
    decreases rs.len(),
{
    if rs.len() == 0 {
        Seq::empty()
    } else {
        let rest = a_addrs(rs.drop_last());
        match rs.last().data {
            RecordModel::A(ip) => rest.push(ip),
            _ => rest,
        }
    }
}

/// The IPv6 addresses of the AAAA records among `rs`.
pub open spec fn aaaa_addrs(rs: Seq<AnswerModel>) -> Seq<Ipv6Address>
    decreases rs.len(),
{
    if rs.len() == 0 {
        Seq::empty()
    } else {
        let rest = aaaa_addrs(rs.drop_last());
        match rs.last().data {
            RecordModel::Aaaa(ip) => rest.push(ip),
            _ => rest,
        }
    }
}

/// In-memory DNS cache keyed by lowercased name and query type, with positive and negative
/// (RFC 2308) entries and TTL expiry.
#[derive(Debug, Clone)]
pub struct DnsCache {
    entries: Vec<CacheSlot>,
}

impl DnsCache {
    pub closed spec fn wf(&self) -> bool {
        slots_unique(self.entries@)
    }

    /// The cache as a map from (lowercased name, type) to entry.
    pub closed spec fn view_map(&self) -> Map<(Seq<char>, u16), EntryModel> {
        slots_view(self.entries@)
    }

    pub fn new() -> (r: Self)
        ensures
            r.wf(),
            r.view_map() == Map::<(Seq<char>, u16), EntryModel>::empty(),
    {
        let r = DnsCache { entries: Vec::new() };
        assert(slots_view(r.entries@) =~= Map::<(Seq<char>, u16), EntryModel>::empty());
        r
    }

    fn find(&self, key: &String, qtype: u16) -> (r: Option<usize>)
        requires
            self.wf(),
        ensures
            match r {
                Some(i) => i < self.entries@.len() && slot_key(self.entries@[i as int]) == (key@, qtype),
                None => !self.view_map().contains_key((key@, qtype)),
            },
    {
        let mut i: usize = 0;
        while i < self.entries.len()
            invariant
                i <= self.entries@.len(),
                forall|j: int| 0 <= j < i ==> slot_key(self.entries@[j]) != (key@, qtype),
            decreases self.entries@.len() - i,
        {
            if self.entries[i].qtype == qtype && self.entries[i].name == *key {
                return Some(i);
            }
            i = i + 1;
        }
        None
    }

    fn store(&mut self, slot: CacheSlot)
        requires
            old(self).wf(),
        ensures
            final(self).wf(),
            final(self).view_map() == old(self).view_map().insert(slot_key(slot), slot_entry(slot)),
    {
        let ghost s0 = self.entries@;
        let ghost k0 = slot_key(slot);
        let ghost e0 = slot_entry(slot);
        match self.find(&slot.name, slot.qtype) {
            Some(i) => {
                self.entries.set(i, slot);
                proof {
                    let s1 = self.entries@;
                    assert forall|a: int, b: int| 0 <= a < b < s1.len() implies slot_key(s1[a]) != slot_key(s1[b]) by {
                        assert(slot_key(s0[a]) != slot_key(s0[b]));
                    }
                    assert forall|k: (Seq<char>, u16)| #[trigger] slots_view(s1).contains_key(k) == slots_view(s0).insert(k0, e0).contains_key(k) by {
                        if exists|j: int| 0 <= j < s0.len() && slot_key(s0[j]) == k {
                            let j = choose|j: int| 0 <= j < s0.len() && slot_key(s0[j]) == k;
                            assert(slot_key(s1[j]) == k);
                        }
                        if exists|j: int| 0 <= j < s1.len() && slot_key(s1[j]) == k {
                            let j = choose|j: int| 0 <= j < s1.len() && slot_key(s1[j]) == k;
                            if j != i {
                                assert(slot_key(s0[j]) == k);
                            }
                        }
                    }
                    assert forall|k: (Seq<char>, u16)| #[trigger] slots_view(s1).contains_key(k) implies slots_view(s1)[k] == slots_view(s0).insert(k0, e0)[k] by {
                        let j = choose|j: int| 0 <= j < s1.len() && slot_key(s1[j]) == k;
                        lemma_slots_view_index(s1, j);
                        if j != i {
                            lemma_slots_view_index(s0, j);
                        }
                    }
                    assert(slots_view(s1) =~= slots_view(s0).insert(k0, e0));
                }
            },
            None => {
                self.entries.push(slot);
                proof {
                    let s1 = self.entries@;
                    let n = s0.len() as int;
                    assert forall|a: int, b: int| 0 <= a < b < s1.len() implies slot_key(s1[a]) != slot_key(s1[b]) by {
                        if b == n {
                            if slot_key(s1[a]) == k0 {
                                assert(slots_view(s0).contains_key(slot_key(s0[a])));
                            }
                        } else {
                            assert(slot_key(s0[a]) != slot_key(s0[b]));
                        }
                    }
                    assert forall|k: (Seq<char>, u16)| #[trigger] slots_view(s1).contains_key(k) == slots_view(s0).insert(k0, e0).contains_key(k) by {
                        if exists|j: int| 0 <= j < s0.len() && slot_key(s0[j]) == k {
                            let j = choose|j: int| 0 <= j < s0.len() && slot_key(s0[j]) == k;
                            assert(slot_key(s1[j]) == k);
                        }
                        if k == k0 {
                            assert(slot_key(s1[n]) == k);
                        }
                        if exists|j: int| 0 <= j < s1.len() && slot_key(s1[j]) == k {
                            let j = choose|j: int| 0 <= j < s1.len() && slot_key(s1[j]) == k;
                            if j != n {
                                assert(slot_key(s0[j]) == k);
                            }
                        }
                    }
                    assert forall|k: (Seq<char>, u16)| #[trigger] slots_view(s1).contains_key(k) implies slots_view(s1)[k] == slots_view(s0).insert(k0, e0)[k] by {
                        let j = choose|j: int| 0 <= j < s1.len() && slot_key(s1[j]) == k;
                        lemma_slots_view_index(s1, j);
                        if j != n {
                            lemma_slots_view_index(s0, j);
                        }
                    }
                    assert(slots_view(s1) =~= slots_view(s0).insert(k0, e0));
                }
            },
        }
    }

    /// Stores positive records for `name` and `qtype`, with the smallest of their TTLs; an
    /// empty record list changes nothing.
    pub fn insert(&mut self, name: &str, qtype: u16, records: Vec<DnsAnswer>, now_secs: u64)
        requires
            old(self).wf(),
        ensures
            final(self).wf(),
            records@.len() == 0 ==> final(self).view_map() == old(self).view_map(),
            records@.len() > 0 ==> final(self).view_map() == old(self).view_map().insert(
                (lowercase(name@), qtype),
                EntryModel {
                    records: answers_view(records@),
                    nxdomain: false,
                    inserted_at_secs: now_secs,
                    ttl_secs: min_ttl(answers_view(records@)),
                },
            ),
    {
        if records.len() == 0 {
            return;
        }
        let mut m = records[0].ttl;
        let mut i: usize = 1;
        assert(answers_view(records@).subrange(0, 1) =~= seq![records@[0]@]);
        while i < records.len()
            invariant
                1 <= i <= records@.len(),
                m == min_ttl(answers_view(records@).subrange(0, i as int)),
            decreases records@.len() - i,
        {
            if records[i].ttl < m {
                m = records[i].ttl;
            }
            i = i + 1;
            assert(answers_view(records@).subrange(0, i as int).drop_last() =~= answers_view(records@).subrange(0, i - 1));
        }
        assert(answers_view(records@).subrange(0, i as int) =~= answers_view(records@));
        let key = to_lowercase(name);
        self.store(
            CacheSlot {
                name: key,
                qtype,
                entry: CachedEntry { records, nxdomain: false, inserted_at_secs: now_secs, ttl_secs: m },
            },
        );
    }

    /// Stores a name-error entry for `name` and `qtype`, living at least one second.
    pub fn insert_negative(&mut self, name: &str, qtype: u16, ttl_secs: u32, now_secs: u64)
        requires
            old(self).wf(),
        ensures
            final(self).wf(),
            final(self).view_map() == old(self).view_map().insert(
                (lowercase(name@), qtype),
                EntryModel {
                    records: Seq::empty(),
                    nxdomain: true,
                    inserted_at_secs: now_secs,
                    ttl_secs: if ttl_secs > 1 { ttl_secs } else { 1 },
                },
            ),
    {
        let key = to_lowercase(name);
        let t = if ttl_secs > 1 {
            ttl_secs
        } else {
            1
        };
        let records: Vec<DnsAnswer> = Vec::new();
        assert(answers_view(records@) =~= Seq::<AnswerModel>::empty());
        self.store(
            CacheSlot {
                name: key,
                qtype,
                entry: CachedEntry { records, nxdomain: true, inserted_at_secs: now_secs, ttl_secs: t },
            },
        );
    }

    /// The live entry for `name` and `qtype`: `Err(())` for a name error, else its records
    /// with the remaining TTL.
    pub fn lookup(&self, name: &str, qtype: u16, now_secs: u64) -> (r: Option<Result<Vec<DnsAnswer>, ()>>)
        requires
            self.wf(),
        ensures
            match r {
                None => lookup_result(self.view_map().get((lowercase(name@), qtype)), now_secs) is None,
                Some(Err(())) => lookup_result(self.view_map().get((lowercase(name@), qtype)), now_secs) == Some(Err::<Seq<AnswerModel>, ()>(())),
                Some(Ok(v)) => lookup_result(self.view_map().get((lowercase(name@), qtype)), now_secs) == Some(Ok::<Seq<AnswerModel>, ()>(answers_view(v@))),
            },
    {
        let key = to_lowercase(name);
        match self.find(&key, qtype) {
            None => None,
            Some(i) => {
                proof {
                    lemma_slots_view_index(self.entries@, i as int);
                }
                let entry = &self.entries[i].entry;
                let elapsed: u64 = if now_secs >= entry.inserted_at_secs {
                    now_secs - entry.inserted_at_secs
                } else {
                    0
                };
                if elapsed < entry.ttl_secs as u64 {
                    if entry.nxdomain {
                        return Some(Err(()));
                    }
                    let remaining = entry.ttl_secs - elapsed as u32;
                    let mut out: Vec<DnsAnswer> = Vec::new();
                    let mut j: usize = 0;
                    while j < entry.records.len()
                        invariant
                            j <= entry.records@.len(),
                            answers_view(out@) == records_with_ttl(answers_view(entry.records@), remaining).subrange(0, j as int),
                        decreases entry.records@.len() - j,
                    {
                        let rec = entry.records[j].with_ttl(remaining);
                        assert(rec@ == records_with_ttl(answers_view(entry.records@), remaining)[j as int]);
                        let ghost o0 = out@;
                        out.push(rec);
                        j = j + 1;
                        assert(answers_view(out@) =~= answers_view(o0).push(rec@));
                        assert(answers_view(out@) =~= records_with_ttl(answers_view(entry.records@), remaining).subrange(0, j as int));
                    }
                    assert(records_with_ttl(answers_view(entry.records@), remaining).subrange(0, j as int) =~= records_with_ttl(answers_view(entry.records@), remaining));
                    Some(Ok(out))
                } else {
                    None
                }
            },
        }
    }

    /// The addresses of the live A records for `name`; `None` when there are none.
    pub fn lookup_a(&self, name: &str, now_secs: u64) -> (r: Option<Vec<Ipv4Address>>)
        requires
            self.wf(),
        ensures
            match lookup_result(self.view_map().get((lowercase(name@), DNS_TYPE_A)), now_secs) {
                Some(Ok(rs)) => if a_addrs(rs).len() == 0 {
                    r is None
                } else {
                    r matches Some(v) && v@ == a_addrs(rs)
                },
                _ => r is None,
            },
    {
        match self.lookup(name, DNS_TYPE_A, now_secs) {
            Some(Ok(answers)) => {
                let mut ips: Vec<Ipv4Address> = Vec::new();
                let mut j: usize = 0;
                while j < answers.len()
                    invariant
                        j <= answers@.len(),
                        ips@ == a_addrs(answers_view(answers@).subrange(0, j as int)),
                    decreases answers@.len() - j,
                {
                    match &answers[j].data {
                        DnsRecordData::A(ip) => ips.push(*ip),
                        _ => {},
                    }
                    j = j + 1;
                    assert(answers_view(answers@).subrange(0, j as int).drop_last() =~= answers_view(answers@).subrange(0, j - 1));
                }
                assert(answers_view(answers@).subrange(0, j as int) =~= answers_view(answers@));
                if ips.len() == 0 {
                    None
                } else {
                    Some(ips)
                }
            },
            _ => None,
        }
    }

    /// The addresses of the live AAAA records for `name`; `None` when there are none.
    pub fn lookup_aaaa(&self, name: &str, now_secs: u64) -> (r: Option<Vec<Ipv6Address>>)
        requires
            self.wf(),
        ensures
            match lookup_result(self.view_map().get((lowercase(name@), DNS_TYPE_AAAA)), now_secs) {
                Some(Ok(rs)) => if aaaa_addrs(rs).len() == 0 {
                    r is None
                } else {
                    r matches Some(v) && v@ == aaaa_addrs(rs)
                },
                _ => r is None,
            },
    {
        match self.lookup(name, DNS_TYPE_AAAA, now_secs) {
            Some(Ok(answers)) => {
                let mut ips: Vec<Ipv6Address> = Vec::new();
                let mut j: usize = 0;
                while j < answers.len()
                    invariant
                        j <= answers@.len(),
                        ips@ == aaaa_addrs(answers_view(answers@).subrange(0, j as int)),
                    decreases answers@.len() - j,
                {
                    match &answers[j].data {
                        DnsRecordData::Aaaa(ip) => ips.push(*ip),
                        _ => {},
                    }
                    j = j + 1;
                    assert(answers_view(answers@).subrange(0, j as int).drop_last() =~= answers_view(answers@).subrange(0, j - 1));
                }
                assert(answers_view(answers@).subrange(0, j as int) =~= answers_view(answers@));
                if ips.len() == 0 {
                    None
                } else {
                    Some(ips)
                }
            },
            _ => None,
        }
    }

    /// Drops every expired entry.
    pub fn purge_expired(&mut self, now_secs: u64)
        requires
            old(self).wf(),
        ensures
            final(self).wf(),
            forall|k: (Seq<char>, u16)| #[trigger] final(self).view_map().contains_key(k) == (old(self).view_map().contains_key(k) && is_live(old(self).view_map()[k], now_secs)),
            forall|k: (Seq<char>, u16)| #[trigger] final(self).view_map().contains_key(k) ==> final(self).view_map()[k] == old(self).view_map()[k],
            final(self).view_map() == live_entries(old(self).view_map(), now_secs),
    {
        let ghost s0 = self.entries@;
        let n0 = self.entries.len();
        let mut kept: Vec<CacheSlot> = Vec::new();
        let mut old_entries: Vec<CacheSlot> = Vec::new();
        std::mem::swap(&mut old_entries, &mut self.entries);
        assert(old_entries@ == s0);
        assert(s0.skip(0) =~= s0);
        let ghost mut idx: Seq<int> = Seq::empty();
        let mut i: usize = 0;
        while old_entries.len() > 0
            invariant
                n0 == s0.len(),
                slots_unique(s0),
                i <= n0,
                i + old_entries@.len() == n0,
                old_entries@ == s0.skip(i as int),
                kept@.len() == idx.len(),
                forall|a: int| #![trigger idx[a]] 0 <= a < idx.len() ==> 0 <= idx[a] < i && kept@[a] == s0[idx[a]],
                forall|a: int, b: int| #![trigger idx[a], idx[b]] 0 <= a < b < idx.len() ==> idx[a] < idx[b],
                forall|j: int| 0 <= j < i ==> (is_live(slot_entry(s0[j]), now_secs) <==> exists|a: int| 0 <= a < idx.len() && idx[a] == j),
            decreases old_entries@.len(),
        {
            let slot = old_entries.remove(0);
            let e = &slot.entry;
            let live = (if now_secs >= e.inserted_at_secs { now_secs - e.inserted_at_secs } else { 0 }) < e.ttl_secs as u64;
            assert(slot == s0[i as int]);
            assert(old_entries@ =~= s0.skip(i + 1));
            let ghost idx0 = idx;
            let ghost k0 = kept@;
            if live {
                kept.push(slot);
                proof {
                    idx = idx.push(i as int);
                    assert forall|a: int| #![trigger idx[a]] 0 <= a < idx.len() implies 0 <= idx[a] < i + 1 && kept@[a] == s0[idx[a]] by {
                        if a < idx0.len() {
                            assert(idx[a] == idx0[a]);
                            assert(kept@[a] == k0[a]);
                        }
                    }
                    assert forall|a: int, b: int| #![trigger idx[a], idx[b]] 0 <= a < b < idx.len() implies idx[a] < idx[b] by {
                        if b < idx0.len() {
                            assert(idx[a] == idx0[a] && idx[b] == idx0[b]);
                        } else {
                            assert(idx[a] == idx0[a]);
                        }
                    }
                }
            }
            proof {
                assert forall|j: int| 0 <= j <= i implies (is_live(slot_entry(s0[j]), now_secs) <==> exists|a: int| 0 <= a < idx.len() && idx[a] == j) by {
                    if j == i {
                        if live {
                            assert(idx[idx.len() - 1] == j);
                        } else {
                            if exists|a: int| 0 <= a < idx.len() && idx[a] == j {
                                let a = choose|a: int| 0 <= a < idx.len() && idx[a] == j;
                                assert(idx == idx0);
                                assert(idx0[a] < i);
                            }
                        }
                    } else {
                        if exists|a: int| 0 <= a < idx0.len() && idx0[a] == j {
                            let a = choose|a: int| 0 <= a < idx0.len() && idx0[a] == j;
                            assert(idx[a] == j);
                        }
                        if exists|a: int| 0 <= a < idx.len() && idx[a] == j {
                            let a = choose|a: int| 0 <= a < idx.len() && idx[a] == j;
                            assert(a < idx0.len());
                            assert(idx0[a] == j);
                        }
                    }
                }
            }
            i = i + 1;
        }
        self.entries = kept;
        proof {
            let s1 = self.entries@;
            assert forall|a: int, b: int| 0 <= a < b < s1.len() implies slot_key(s1[a]) != slot_key(s1[b]) by {
                assert(slot_key(s0[idx[a]]) != slot_key(s0[idx[b]]));
            }
            assert forall|k: (Seq<char>, u16)| #[trigger] slots_view(s1).contains_key(k) == (slots_view(s0).contains_key(k) && is_live(slots_view(s0)[k], now_secs)) by {
                if exists|a: int| 0 <= a < s1.len() && slot_key(s1[a]) == k {
                    let a = choose|a: int| 0 <= a < s1.len() && slot_key(s1[a]) == k;
                    lemma_slots_view_index(s0, idx[a]);
                    assert(exists|a2: int| 0 <= a2 < idx.len() && idx[a2] == idx[a]);
                }
                if slots_view(s0).contains_key(k) && is_live(slots_view(s0)[k], now_secs) {
                    let j = choose|j: int| 0 <= j < s0.len() && slot_key(s0[j]) == k;
                    lemma_slots_view_index(s0, j);
                    let a = choose|a: int| 0 <= a < idx.len() && idx[a] == j;
                    assert(slot_key(s1[a]) == k);
                }
            }
            assert forall|k: (Seq<char>, u16)| #[trigger] slots_view(s1).contains_key(k) implies slots_view(s1)[k] == slots_view(s0)[k] by {
                let a = choose|a: int| 0 <= a < s1.len() && slot_key(s1[a]) == k;
                lemma_slots_view_index(s1, a);
                lemma_slots_view_index(s0, idx[a]);
            }
            assert(slots_view(s1) =~= live_entries(slots_view(s0), now_secs));
        }
    }

    /// Removes every entry.
    pub fn clear(&mut self)
        ensures
            final(self).wf(),
            final(self).view_map() == Map::<(Seq<char>, u16), EntryModel>::empty(),
    {
        self.entries = Vec::new();
        assert(slots_view(self.entries@) =~= Map::<(Seq<char>, u16), EntryModel>::empty());
    }
}

impl Default for DnsCache {
    fn default() -> (r: Self)
        ensures
            r.wf(),
            r.view_map() == Map::<(Seq<char>, u16), EntryModel>::empty(),
    {
        Self::new()
    }
}


/// Law: a cached entry lives for the smallest TTL among its records: its TTL is at most
/// every record's TTL and is one of them.
pub proof fn lemma_entry_ttl_is_smallest(rs: Seq<AnswerModel>)
    requires
        rs.len() > 0,
    ensures
        forall|i: int| 0 <= i < rs.len() ==> min_ttl(rs) <= #[trigger] rs[i].ttl,
        exists|i: int| 0 <= i < rs.len() && min_ttl(rs) == #[trigger] rs[i].ttl,
    decreases rs.len(),
{
    if rs.len() == 1 {
        assert(min_ttl(rs) == rs[0].ttl);
    } else {
        let init = rs.drop_last();
        lemma_entry_ttl_is_smallest(init);
        assert forall|i: int| 0 <= i < rs.len() implies min_ttl(rs) <= #[trigger] rs[i].ttl by {
            if i < init.len() {
                assert(init[i] == rs[i]);
            }
        }
        let w = choose|i: int| 0 <= i < init.len() && min_ttl(init) == #[trigger] init[i].ttl;
        assert(init[w] == rs[w]);
        if rs.last().ttl < min_ttl(init) {
            assert(min_ttl(rs) == rs[rs.len() - 1].ttl);
        } else {
            assert(min_ttl(rs) == rs[w].ttl);
        }
    }
}

/// Law: records stored together at `at` are served no longer than any one of them may
/// live: once the TTL of some record has passed, a lookup under that key finds nothing;
/// while no record's TTL has passed, it finds the records.
pub proof fn lemma_insert_lives_for_each_record(
    m: Map<(Seq<char>, u16), EntryModel>,
    key: (Seq<char>, u16),
    rs: Seq<AnswerModel>,
    at: u64,
    now: u64,
)
    requires
        rs.len() > 0,
        at <= now,
    ensures
        ({
            let found = lookup_result(
                m.insert(key, EntryModel { records: rs, nxdomain: false, inserted_at_secs: at, ttl_secs: min_ttl(rs) }).get(key),
                now,
            );
            &&& (exists|i: int| 0 <= i < rs.len() && at + #[trigger] rs[i].ttl <= now) ==> found is None
            &&& (forall|i: int| 0 <= i < rs.len() ==> now < at + #[trigger] rs[i].ttl) ==> found is Some
        }),
{
    lemma_entry_ttl_is_smallest(rs);
    let w = choose|i: int| 0 <= i < rs.len() && min_ttl(rs) == #[trigger] rs[i].ttl;
    if exists|i: int| 0 <= i < rs.len() && at + #[trigger] rs[i].ttl <= now {
        let i = choose|i: int| 0 <= i < rs.len() && at + #[trigger] rs[i].ttl <= now;
        assert(min_ttl(rs) <= rs[i].ttl);
    }
    if forall|i: int| 0 <= i < rs.len() ==> now < at + #[trigger] rs[i].ttl {
        assert(now < at + rs[w].ttl);
    }
}

} // verus!
