//! What the DNS builders' messages read back as: the parser's model of a query or a
//! response built for a host name.
use vstd::prelude::*;
use crate::dns::{
    label_bytes, labels_bytes, lemma_next_dot, message_parse, name_bytes, name_text, name_walk,
    next_dot, offsets, qname_parse, query_bytes, rdata_parse, record_parse, response_bytes, AnswerModel,
    DnsError, MessageModel, QuestionModel, RecordModel, DNS_CLASS_IN, DNS_TYPE_A, DNS_TYPE_AAAA,
    DNS_TYPE_CNAME, DNS_TYPE_MX, DNS_TYPE_PTR, DNS_TYPE_SRV,
};
use crate::net::{Ipv4Address, Ipv6Address};
use crate::wire::{be16_at, be32_at, lemma_u32_roundtrip, u16_bytes, u32_bytes};

verus! {

/// The labels of the dot-separated octets of `b` from `i` on.
pub open spec fn split_labels(b: Seq<u8>, i: int) -> Seq<Seq<u8>>
    decreases b.len() - i,
{
    if i < 0 || i > b.len() {
        Seq::empty()
    } else {
        let d = next_dot(b, i);
        if d >= b.len() {
            seq![b.subrange(i, b.len() as int)]
        } else if d < i {
            Seq::empty()
        } else {
            seq![b.subrange(i, d)] + split_labels(b, d + 1)
        }
    }
}

/// The labels of a dotted host name.
pub open spec fn host_labels(b: Seq<u8>) -> Seq<Seq<u8>> {
    split_labels(b, 0)
}

/// A host name that the encoder writes as it is: labels of 1 to 63 octets, and at most 253
/// octets in all, so that its wire form stays within 255 octets.
pub open spec fn valid_host(b: Seq<u8>) -> bool {
    &&& b.len() <= 253
    &&& forall|k: int| 0 <= k < host_labels(b).len() ==> 1 <= #[trigger] host_labels(b)[k].len() <= 63
}

/// Labels on the wire, each as its length octet and its octets, without the root label.
pub open spec fn encoded_labels(ls: Seq<Seq<u8>>) -> Seq<u8>
    decreases ls.len(),
{
    if ls.len() == 0 {
        Seq::empty()
    } else {
        label_bytes(ls[0]) + encoded_labels(ls.skip(1))
    }
}

pub(crate) proof fn lemma_split_encoded(b: Seq<u8>, i: int)
    requires
        0 <= i <= b.len(),
    ensures
        labels_bytes(b, i) == encoded_labels(split_labels(b, i)),
        (forall|k: int| 0 <= k < split_labels(b, i).len() ==> #[trigger] split_labels(b, i)[k].len() >= 1)
            ==> encoded_labels(split_labels(b, i)).len() == b.len() - i + 1,
    decreases b.len() - i,
{
    lemma_next_dot(b, i);
    let d = next_dot(b, i);
    let s = split_labels(b, i);
    if d >= b.len() {
        let l = b.subrange(i, b.len() as int);
        assert(s == seq![l]);
        assert(s.skip(1) =~= Seq::<Seq<u8>>::empty());
        assert(encoded_labels(Seq::<Seq<u8>>::empty()) =~= Seq::<u8>::empty());
        assert(encoded_labels(s) =~= label_bytes(l));
        if forall|k: int| 0 <= k < s.len() ==> #[trigger] s[k].len() >= 1 {
            assert(s[0].len() >= 1);
        }
    } else {
        let l = b.subrange(i, d);
        let rest = split_labels(b, d + 1);
        assert(s == seq![l] + rest);
        assert(s.skip(1) =~= rest);
        assert(s[0] == l);
        lemma_split_encoded(b, d + 1);
        if forall|k: int| 0 <= k < s.len() ==> #[trigger] s[k].len() >= 1 {
            assert(s[0].len() >= 1);
            assert forall|k: int| 0 <= k < rest.len() implies #[trigger] rest[k].len() >= 1 by {
                assert(rest[k] == s[k + 1]);
            }
        }
    }
}

/// Reading labels written as `encoded_labels(ls)` and a root label at `off`, from any walk
/// state whose visited positions lie outside them, yields `ls` after what was read so far.
proof fn lemma_walk_labels(
    data: Seq<u8>,
    off: int,
    visited: Set<int>,
    jumped: bool,
    ret: int,
    wire: int,
    acc: Seq<Seq<u8>>,
    ls: Seq<Seq<u8>>,
)
    requires
        visited.subset_of(offsets(data.len() as int)),
        0 <= off,
        off + encoded_labels(ls).len() + 1 <= data.len(),
        data.subrange(off, off + encoded_labels(ls).len() + 1) == encoded_labels(ls).push(0u8),
        forall|v: int| visited.contains(v) ==> v < off || v > off + encoded_labels(ls).len(),
        forall|k: int| 0 <= k < ls.len() ==> 1 <= #[trigger] ls[k].len() <= 63,
        wire + encoded_labels(ls).len() <= 255,
    ensures
        name_walk(data, off, visited, jumped, ret, wire, acc) == Ok::<(Seq<Seq<u8>>, int), crate::dns::DnsError>(
            (
                acc + ls,
                if !jumped {
                    off + encoded_labels(ls).len() + 1
                } else {
                    ret
                },
            ),
        ),
    decreases ls.len(),
{
    let e = encoded_labels(ls);
    let w = data.subrange(off, off + e.len() + 1);
    assert(data[off] == w[0]);
    if ls.len() == 0 {
        assert(e.push(0u8)[0] == 0u8);
        assert(acc + ls =~= acc);
    } else {
        let l = ls[0];
        let n = l.len() as int;
        let rest = ls.skip(1);
        let e2 = encoded_labels(rest);
        assert(1 <= n <= 63);
        assert(e == label_bytes(l) + e2);
        assert(label_bytes(l) == seq![(n % 256) as u8] + l);
        assert(e.push(0u8) =~= seq![n as u8] + l + e2.push(0u8));
        let x: u8 = data[off];
        assert(x == n as u8);
        assert(x & 0xC0u8 == 0u8) by (bit_vector)
            requires
                1 <= x <= 63,
        ;
        assert(!visited.contains(off));
        assert(data.subrange(off + 1, off + 1 + n) =~= w.subrange(1, 1 + n));
        assert(w.subrange(1, 1 + n) =~= l);
        assert(data.subrange(off + 1 + n, off + 1 + n + e2.len() + 1) =~= w.subrange(1 + n, e.len() + 1int));
        assert(w.subrange(1 + n, e.len() + 1int) =~= e2.push(0u8));
        assert forall|k: int| 0 <= k < rest.len() implies 1 <= #[trigger] rest[k].len() <= 63 by {
            assert(rest[k] == ls[k + 1]);
        }
        assert forall|v: int| visited.insert(off).contains(v) implies v < off + 1 + n || v > off + 1 + n + e2.len() by {
        }
        vstd::set_lib::lemma_int_range(0, data.len() as int);
        lemma_walk_labels(data, off + 1 + n, visited.insert(off), jumped, ret, wire + 1 + n, acc.push(l), rest);
        assert(acc.push(l) + rest =~= acc + ls);
    }
}

/// The wire form of a valid host name is its labels and the root label, one octet longer
/// than the name.
proof fn lemma_host_name_bytes(h: Seq<u8>)
    requires
        valid_host(h),
    ensures
        name_bytes(h) == encoded_labels(host_labels(h)).push(0u8),
        encoded_labels(host_labels(h)).len() == h.len() + 1,
{
    lemma_split_encoded(h, 0);
    assert forall|k: int| 0 <= k < split_labels(h, 0).len() implies #[trigger] split_labels(h, 0)[k].len() >= 1 by {
        assert(host_labels(h)[k] == split_labels(h, 0)[k]);
    }
    assert(name_bytes(h) =~= encoded_labels(host_labels(h)).push(0u8));
}

proof fn lemma_be16_in(data: Seq<u8>, i: int, v: u16)
    requires
        0 <= i,
        i + 2 <= data.len(),
        data.subrange(i, i + 2) == u16_bytes(v),
    ensures
        be16_at(data, i) == v,
{
    assert(data[i] == data.subrange(i, i + 2)[0]);
    assert(data[i + 1] == data.subrange(i, i + 2)[1]);
}

proof fn lemma_header(data: Seq<u8>, id: u16, flags: u16, qd: u16, an: u16)
    requires
        data.len() >= 12,
        data.subrange(0, 12) == crate::dns::header_bytes(id, flags, qd, an),
    ensures
        be16_at(data, 0) == id,
        be16_at(data, 2) == flags,
        be16_at(data, 4) == qd,
        be16_at(data, 6) == an,
        be16_at(data, 8) == 0,
        be16_at(data, 10) == 0,
{
    let h = data.subrange(0, 12);
    assert(data.subrange(0, 2) =~= h.subrange(0, 2));
    assert(h.subrange(0, 2) =~= u16_bytes(id));
    assert(data.subrange(2, 4) =~= h.subrange(2, 4));
    assert(h.subrange(2, 4) =~= u16_bytes(flags));
    assert(data.subrange(4, 6) =~= h.subrange(4, 6));
    assert(h.subrange(4, 6) =~= u16_bytes(qd));
    assert(data.subrange(6, 8) =~= h.subrange(6, 8));
    assert(h.subrange(6, 8) =~= u16_bytes(an));
    assert(data.subrange(8, 10) =~= h.subrange(8, 10));
    assert(h.subrange(8, 10) =~= u16_bytes(0));
    assert(data.subrange(10, 12) =~= h.subrange(10, 12));
    assert(h.subrange(10, 12) =~= u16_bytes(0));
    lemma_be16_in(data, 0, id);
    lemma_be16_in(data, 2, flags);
    lemma_be16_in(data, 4, qd);
    lemma_be16_in(data, 6, an);
    lemma_be16_in(data, 8, 0);
    lemma_be16_in(data, 10, 0);
}

/// The question section: a valid host name at offset 12 followed by its type and class
/// reads back as one question, ending four octets after the name.
proof fn lemma_question(data: Seq<u8>, host: Seq<u8>, qtype: u16)
    requires
        valid_host(host),
        data.len() >= 12 + host.len() as int + 6,
        data.subrange(12, 12 + host.len() as int + 6) == name_bytes(host) + u16_bytes(qtype) + u16_bytes(DNS_CLASS_IN),
    ensures
        crate::dns::questions_parse(data, 12, 1) == Ok::<(Seq<QuestionModel>, int), crate::dns::DnsError>(
            (seq![QuestionModel { name: name_text(host_labels(host)), qtype, qclass: DNS_CLASS_IN }], 12 + host.len() as int + 6),
        ),
{
    lemma_host_name_bytes(host);
    let e = encoded_labels(host_labels(host));
    let o: int = 12 + e.len() as int + 1;
    let q = data.subrange(12, 12 + host.len() as int + 6);
    assert(data.subrange(12, o) =~= q.subrange(0, e.len() + 1int));
    assert(q.subrange(0, e.len() + 1int) =~= e.push(0u8));
    assert(data.subrange(o, o + 2) =~= q.subrange(e.len() + 1int, e.len() + 3int));
    assert(q.subrange(e.len() + 1int, e.len() + 3int) =~= u16_bytes(qtype));
    assert(data.subrange(o + 2, o + 4) =~= q.subrange(e.len() + 3int, e.len() + 5int));
    assert(q.subrange(e.len() + 3int, e.len() + 5int) =~= u16_bytes(DNS_CLASS_IN));
    lemma_be16_in(data, o, qtype);
    lemma_be16_in(data, o + 2, DNS_CLASS_IN);
    assert forall|k: int| 0 <= k < host_labels(host).len() implies 1 <= #[trigger] host_labels(host)[k].len() <= 63 by {
    }
    lemma_walk_labels(data, 12, Set::empty(), false, 12, 1, Seq::empty(), host_labels(host));
    assert(Seq::<Seq<u8>>::empty() + host_labels(host) =~= host_labels(host));
    assert(crate::dns::qname_parse(data, 12) == Ok::<(Seq<char>, int), crate::dns::DnsError>((name_text(host_labels(host)), o)));
    assert(crate::dns::questions_parse(data, 12, 0) == Ok::<(Seq<QuestionModel>, int), crate::dns::DnsError>((Seq::empty(), 12)));
    assert(Seq::<QuestionModel>::empty().push(QuestionModel { name: name_text(host_labels(host)), qtype, qclass: DNS_CLASS_IN })
        =~= seq![QuestionModel { name: name_text(host_labels(host)), qtype, qclass: DNS_CLASS_IN }]);
}

proof fn lemma_concat_parts(a: Seq<u8>, b: Seq<u8>)
    ensures
        (a + b).subrange(0, a.len() as int) == a,
        (a + b).subrange(a.len() as int, a.len() + b.len() as int) == b,
        (a + b).len() == a.len() + b.len(),
{
    assert((a + b).subrange(0, a.len() as int) =~= a);
    assert((a + b).subrange(a.len() as int, a.len() + b.len() as int) =~= b);
}

proof fn lemma_query_layout(id: u16, host: Seq<u8>, qtype: u16)
    requires
        valid_host(host),
    ensures
        query_bytes(id, host, qtype).len() == 12 + host.len() as int + 6,
        query_bytes(id, host, qtype).subrange(0, 12) == crate::dns::header_bytes(id, 0x0100, 1, 0),
        query_bytes(id, host, qtype).subrange(12, 12 + host.len() as int + 6) == name_bytes(host) + u16_bytes(qtype)
            + u16_bytes(DNS_CLASS_IN),
{
    lemma_host_name_bytes(host);
    let data = query_bytes(id, host, qtype);
    let hdr = crate::dns::header_bytes(id, 0x0100, 1, 0);
    let rest = name_bytes(host) + u16_bytes(qtype) + u16_bytes(DNS_CLASS_IN);
    assert(data =~= hdr + rest) by {
        reveal(query_bytes);
    }
    lemma_concat_parts(hdr, rest);
}

/// A query built for a valid host name reads back as a query (not a response) with the
/// same identifier, recursion desired, and one question for the name's labels, of the
/// given type and class IN, and nothing else.
#[verifier::rlimit(40)]
pub proof fn lemma_query_readback(id: u16, host: Seq<u8>, qtype: u16)
    requires
        valid_host(host),
    ensures
        message_parse(query_bytes(id, host, qtype)) == Ok::<MessageModel, crate::dns::DnsError>(
            MessageModel {
                id,
                is_response: false,
                recursion_desired: true,
                recursion_available: false,
                authoritative: false,
                truncated: false,
                rcode: 0,
                questions: seq![QuestionModel { name: name_text(host_labels(host)), qtype, qclass: DNS_CLASS_IN }],
                answers: Seq::empty(),
                authorities: Seq::empty(),
                additionals: Seq::empty(),
            },
        ),
{
    let data = query_bytes(id, host, qtype);
    let o: int = 12 + host.len() as int + 6;
    lemma_query_layout(id, host, qtype);
    lemma_header(data, id, 0x0100, 1, 0);
    lemma_question(data, host, qtype);
    lemma_message_of_parts(data, seq![QuestionModel { name: name_text(host_labels(host)), qtype, qclass: DNS_CLASS_IN }], o, Seq::empty());
    let f: u16 = 0x0100;
    assert(f & 0x8000u16 == 0 && f & 0x0100u16 != 0 && f & 0x0080u16 == 0 && f & 0x0400u16 == 0 && f & 0x0200u16 == 0
        && f % 16 == 0) by (bit_vector)
        requires
            f == 0x0100u16,
    ;
}

/// A message whose header counts one question and at most one answer, and whose sections
/// read as given, reads back as those sections under its header fields.
proof fn lemma_message_of_parts(data: Seq<u8>, qs: Seq<QuestionModel>, o: int, ans: Seq<crate::dns::AnswerModel>)
    requires
        data.len() >= 12,
        be16_at(data, 4) == 1,
        be16_at(data, 6) == ans.len(),
        ans.len() <= 1,
        be16_at(data, 8) == 0,
        be16_at(data, 10) == 0,
        crate::dns::questions_parse(data, 12, 1) == Ok::<(Seq<QuestionModel>, int), crate::dns::DnsError>((qs, o)),
        ans.len() == 1 ==> crate::dns::record_parse(data, o) == Ok::<(crate::dns::AnswerModel, int), crate::dns::DnsError>(
            (ans[0], data.len() as int),
        ),
    ensures
        ({
            let flags = be16_at(data, 2) as u16;
            message_parse(data) == Ok::<MessageModel, crate::dns::DnsError>(
                MessageModel {
                    id: be16_at(data, 0) as u16,
                    is_response: flags & 0x8000u16 != 0,
                    recursion_desired: flags & 0x0100u16 != 0,
                    recursion_available: flags & 0x0080u16 != 0,
                    authoritative: flags & 0x0400u16 != 0,
                    truncated: flags & 0x0200u16 != 0,
                    rcode: (flags % 16) as u8,
                    questions: qs,
                    answers: ans,
                    authorities: Seq::empty(),
                    additionals: Seq::empty(),
                },
            )
        }),
{
    let end: int = if ans.len() == 1 { data.len() as int } else { o };
    assert(crate::dns::records_parse(data, o, 0) == Ok::<(Seq<crate::dns::AnswerModel>, int), crate::dns::DnsError>((Seq::empty(), o)));
    if ans.len() == 1 {
        assert(Seq::<crate::dns::AnswerModel>::empty().push(ans[0]) =~= ans);
        assert(crate::dns::records_parse(data, o, 1) == Ok::<(Seq<crate::dns::AnswerModel>, int), crate::dns::DnsError>((ans, end)));
    } else {
        assert(ans =~= Seq::<crate::dns::AnswerModel>::empty());
    }
    assert(crate::dns::records_parse(data, end, 0) == Ok::<(Seq<crate::dns::AnswerModel>, int), crate::dns::DnsError>((Seq::empty(), end)));
}

proof fn lemma_be32_in(data: Seq<u8>, i: int, v: u32)
    requires
        0 <= i,
        i + 4 <= data.len(),
        data.subrange(i, i + 4) == u32_bytes(v),
    ensures
        be32_at(data, i) == v,
{
    lemma_u32_roundtrip(v);
    let w = data.subrange(i, i + 4);
    assert(data[i] == w[0] && data[i + 1] == w[1] && data[i + 2] == w[2] && data[i + 3] == w[3]);
}

/// Where the parts of a response built by the library lie.
proof fn lemma_response_layout(id: u16, host: Seq<u8>, rtype: u16, ttl: u32, rdata: Seq<u8>)
    requires
        valid_host(host),
        rdata.len() < 0x1_0000,
    ensures
        ({
            let data = response_bytes(id, host, rtype, ttl, rdata);
            let o: int = 12 + host.len() as int + 6;
            let c: int = o + 12;
            &&& data.len() == c + rdata.len()
            &&& data.subrange(c, c + rdata.len()) == rdata
            &&& data.subrange(0, 12) == crate::dns::header_bytes(id, 0x8180, 1, 1)
            &&& data.subrange(12, o) == name_bytes(host) + u16_bytes(rtype) + u16_bytes(DNS_CLASS_IN)
            &&& data[o] == 0xC0u8
            &&& data[o + 1] == 0x0Cu8
            &&& be16_at(data, o + 2) == rtype
            &&& be16_at(data, o + 4) == DNS_CLASS_IN
            &&& be32_at(data, o + 6) == ttl
            &&& be16_at(data, o + 10) == rdata.len()
        }),
{
    lemma_host_name_bytes(host);
    let data = response_bytes(id, host, rtype, ttl, rdata);
    let o: int = 12 + host.len() as int + 6;
    let c: int = o + 12;
    let hdr = crate::dns::header_bytes(id, 0x8180, 1, 1);
    let q = name_bytes(host) + u16_bytes(rtype) + u16_bytes(DNS_CLASS_IN);
    let rdlen = (rdata.len() % 0x1_0000) as u16;
    let r = u16_bytes(0xC00C) + u16_bytes(rtype) + u16_bytes(DNS_CLASS_IN) + u32_bytes(ttl) + u16_bytes(rdlen) + rdata;
    assert(data =~= (hdr + q) + r) by {
        reveal(response_bytes);
    }
    lemma_concat_parts(hdr + q, r);
    lemma_concat_parts(hdr, q);
    assert(data.subrange(0, 12) =~= (hdr + q).subrange(0, 12));
    assert(data.subrange(12, o) =~= (hdr + q).subrange(12, o));
    assert(data.subrange(o, o + 2) =~= r.subrange(0, 2));
    assert(r.subrange(0, 2) =~= u16_bytes(0xC00C));
    assert(data.subrange(o + 2, o + 4) =~= r.subrange(2, 4));
    assert(r.subrange(2, 4) =~= u16_bytes(rtype));
    assert(data.subrange(o + 4, o + 6) =~= r.subrange(4, 6));
    assert(r.subrange(4, 6) =~= u16_bytes(DNS_CLASS_IN));
    assert(data.subrange(o + 6, o + 10) =~= r.subrange(6, 10));
    assert(r.subrange(6, 10) =~= u32_bytes(ttl));
    assert(data.subrange(o + 10, o + 12) =~= r.subrange(10, 12));
    assert(r.subrange(10, 12) =~= u16_bytes(rdlen));
    assert(data.subrange(c, c + rdata.len()) =~= r.subrange(12, 12 + rdata.len() as int));
    assert(r.subrange(12, 12 + rdata.len() as int) =~= rdata);
    lemma_be16_in(data, o + 2, rtype);
    lemma_be16_in(data, o + 4, DNS_CLASS_IN);
    lemma_be32_in(data, o + 6, ttl);
    lemma_be16_in(data, o + 10, rdlen);
    assert(data[o] == data.subrange(o, o + 2)[0]);
    assert(data[o + 1] == data.subrange(o, o + 2)[1]);
}

/// A record whose owner is a pointer to a valid host name at offset 12, followed by its
/// type, class IN, TTL and data length, reads back with that name and whatever its data
/// reads back as.
proof fn lemma_pointer_record(data: Seq<u8>, host: Seq<u8>, o: int, rtype: u16, ttl: u32, rdlen: int)
    requires
        valid_host(host),
        o == 12 + host.len() as int + 6,
        data.len() == o + 12 + rdlen,
        0 <= rdlen,
        data.subrange(12, o) == name_bytes(host) + u16_bytes(rtype) + u16_bytes(DNS_CLASS_IN),
        data[o] == 0xC0u8,
        data[o + 1] == 0x0Cu8,
        be16_at(data, o + 2) == rtype,
        be16_at(data, o + 4) == DNS_CLASS_IN,
        be32_at(data, o + 6) == ttl,
        be16_at(data, o + 10) == rdlen,
    ensures
        record_parse(data, o) == match rdata_parse(data, o + 12, rdlen, rtype, DNS_CLASS_IN, ttl) {
            Err(e) => Err(e),
            Ok(d) => Ok::<(AnswerModel, int), DnsError>(
                (
                    AnswerModel {
                        name: name_text(host_labels(host)),
                        rtype,
                        rclass: DNS_CLASS_IN,
                        ttl,
                        ip: match d {
                            RecordModel::A(ip) => ip,
                            _ => Ipv4Address([0u8, 0u8, 0u8, 0u8]),
                        },
                        data: d,
                    },
                    data.len() as int,
                ),
            ),
        },
{
    lemma_host_name_bytes(host);
    let e = encoded_labels(host_labels(host));
    let x: u8 = 0xC0;
    assert(x & 0xC0u8 == 0xC0u8 && (x & 0x3Fu8) == 0u8) by (bit_vector)
        requires
            x == 0xC0u8,
    ;
    assert(data.subrange(12, 12 + e.len() + 1int) =~= data.subrange(12, o).subrange(0, e.len() + 1int));
    assert(data.subrange(12, o).subrange(0, e.len() + 1int) =~= e.push(0u8));
    assert forall|k: int| 0 <= k < host_labels(host).len() implies 1 <= #[trigger] host_labels(host)[k].len() <= 63 by {
    }
    vstd::set_lib::lemma_int_range(0, data.len() as int);
    lemma_walk_labels(data, 12, Set::<int>::empty().insert(o), true, o + 2, 1, Seq::empty(), host_labels(host));
    assert(Seq::<Seq<u8>>::empty() + host_labels(host) =~= host_labels(host));
    assert(crate::dns::name_parse(data, o) == Ok::<(Seq<Seq<u8>>, int), DnsError>((host_labels(host), o + 2)));
    assert(qname_parse(data, o) == Ok::<(Seq<char>, int), DnsError>((name_text(host_labels(host)), o + 2)));
}

/// A valid host name written at `off` reads back as its labels, ending after its root label.
proof fn lemma_name_at(data: Seq<u8>, off: int, t: Seq<u8>)
    requires
        valid_host(t),
        0 <= off,
        off + t.len() + 2 <= data.len(),
        data.subrange(off, off + t.len() + 2) == name_bytes(t),
    ensures
        qname_parse(data, off) == Ok::<(Seq<char>, int), DnsError>((name_text(host_labels(t)), off + t.len() + 2)),
{
    lemma_host_name_bytes(t);
    assert forall|k: int| 0 <= k < host_labels(t).len() implies 1 <= #[trigger] host_labels(t)[k].len() <= 63 by {
    }
    lemma_walk_labels(data, off, Set::empty(), false, off, 1, Seq::empty(), host_labels(t));
    assert(Seq::<Seq<u8>>::empty() + host_labels(t) =~= host_labels(t));
    assert(crate::dns::name_parse(data, off) == Ok::<(Seq<Seq<u8>>, int), DnsError>((host_labels(t), off + t.len() + 2)));
}

/// The model of a response built by the library for `host` whose one record has the data
/// `d`.
pub open spec fn response_model(id: u16, host: Seq<u8>, rtype: u16, ttl: u32, d: RecordModel) -> MessageModel {
    MessageModel {
        id,
        is_response: true,
        recursion_desired: true,
        recursion_available: true,
        authoritative: false,
        truncated: false,
        rcode: 0,
        questions: seq![QuestionModel { name: name_text(host_labels(host)), qtype: rtype, qclass: DNS_CLASS_IN }],
        answers: seq![
            AnswerModel {
                name: name_text(host_labels(host)),
                rtype,
                rclass: DNS_CLASS_IN,
                ttl,
                ip: match d {
                    RecordModel::A(ip) => ip,
                    _ => Ipv4Address([0u8, 0u8, 0u8, 0u8]),
                },
                data: d,
            },
        ],
        authorities: Seq::empty(),
        additionals: Seq::empty(),
    }
}

/// A response built by the library reads back as `response_model` once its record data
/// reads back as `d`.
proof fn lemma_response_readback(id: u16, host: Seq<u8>, rtype: u16, ttl: u32, rdata: Seq<u8>, d: RecordModel)
    requires
        valid_host(host),
        rdata.len() < 0x1_0000,
        rdata_parse(response_bytes(id, host, rtype, ttl, rdata), 12 + host.len() as int + 18, rdata.len() as int, rtype, DNS_CLASS_IN, ttl)
            == Ok::<RecordModel, DnsError>(d),
    ensures
        message_parse(response_bytes(id, host, rtype, ttl, rdata)) == Ok::<MessageModel, DnsError>(response_model(id, host, rtype, ttl, d)),
{
    let data = response_bytes(id, host, rtype, ttl, rdata);
    let o: int = 12 + host.len() as int + 6;
    lemma_response_layout(id, host, rtype, ttl, rdata);
    lemma_header(data, id, 0x8180, 1, 1);
    lemma_question(data, host, rtype);
    lemma_pointer_record(data, host, o, rtype, ttl, rdata.len() as int);
    let m = response_model(id, host, rtype, ttl, d);
    lemma_message_of_parts(data, m.questions, o, m.answers);
    let f: u16 = 0x8180;
    assert(f & 0x8000u16 != 0 && f & 0x0100u16 != 0 && f & 0x0080u16 != 0 && f & 0x0400u16 == 0 && f & 0x0200u16 == 0
        && f % 16 == 0) by (bit_vector)
        requires
            f == 0x8180u16,
    ;
}

/// An A response built for a valid host name reads back with the identifier, the question,
/// and one A record of that name, class IN, TTL and address.
pub proof fn lemma_a_response_readback(id: u16, host: Seq<u8>, ip: Ipv4Address, ttl: u32)
    requires
        valid_host(host),
    ensures
        message_parse(response_bytes(id, host, DNS_TYPE_A, ttl, ip.0@)) == Ok::<MessageModel, DnsError>(
            response_model(id, host, DNS_TYPE_A, ttl, RecordModel::A(ip)),
        ),
{
    broadcast use vstd::array::group_array_axioms;
    let rdata = ip.0@;
    let data = response_bytes(id, host, DNS_TYPE_A, ttl, rdata);
    let c: int = 12 + host.len() as int + 18;
    lemma_response_layout(id, host, DNS_TYPE_A, ttl, rdata);
    let w = data.subrange(c, c + 4);
    assert(crate::dns::ip4_at(data, c).0 =~= ip.0) by {
        assert forall|k: int| 0 <= k < 4 implies #[trigger] crate::dns::ip4_at(data, c).0[k] == ip.0[k] by {
            assert(data[c + k] == w[k]);
        }
    }
    lemma_response_readback(id, host, DNS_TYPE_A, ttl, rdata, RecordModel::A(ip));
}

/// An AAAA response built for a valid host name reads back with the identifier, the
/// question, and one AAAA record of that name, class IN, TTL and address.
pub proof fn lemma_aaaa_response_readback(id: u16, host: Seq<u8>, ip: Ipv6Address, ttl: u32)
    requires
        valid_host(host),
    ensures
        message_parse(response_bytes(id, host, DNS_TYPE_AAAA, ttl, ip.0@)) == Ok::<MessageModel, DnsError>(
            response_model(id, host, DNS_TYPE_AAAA, ttl, RecordModel::Aaaa(ip)),
        ),
{
    broadcast use vstd::array::group_array_axioms;
    let rdata = ip.0@;
    let data = response_bytes(id, host, DNS_TYPE_AAAA, ttl, rdata);
    let c: int = 12 + host.len() as int + 18;
    lemma_response_layout(id, host, DNS_TYPE_AAAA, ttl, rdata);
    let w = data.subrange(c, c + 16);
    assert(crate::dns::ip6_at(data, c).0 =~= ip.0) by {
        assert forall|k: int| 0 <= k < 16 implies #[trigger] crate::dns::ip6_at(data, c).0[k] == ip.0[k] by {
            assert(data[c + k] == w[k]);
        }
    }
    lemma_response_readback(id, host, DNS_TYPE_AAAA, ttl, rdata, RecordModel::Aaaa(ip));
}

/// A CNAME response built for valid host names reads back with one CNAME record whose
/// target is the labels of `target`.
pub proof fn lemma_cname_response_readback(id: u16, host: Seq<u8>, target: Seq<u8>, ttl: u32)
    requires
        valid_host(host),
        valid_host(target),
    ensures
        message_parse(response_bytes(id, host, DNS_TYPE_CNAME, ttl, name_bytes(target))) == Ok::<MessageModel, DnsError>(
            response_model(id, host, DNS_TYPE_CNAME, ttl, RecordModel::Cname(name_text(host_labels(target)))),
        ),
{
    lemma_host_name_bytes(target);
    let rdata = name_bytes(target);
    let data = response_bytes(id, host, DNS_TYPE_CNAME, ttl, rdata);
    let c: int = 12 + host.len() as int + 18;
    lemma_response_layout(id, host, DNS_TYPE_CNAME, ttl, rdata);
    lemma_name_at(data, c, target);
    lemma_response_readback(id, host, DNS_TYPE_CNAME, ttl, rdata, RecordModel::Cname(name_text(host_labels(target))));
}

/// A PTR response built for valid names reads back with one PTR record whose target is the
/// labels of `target`.
pub proof fn lemma_ptr_response_readback(id: u16, ptr_name: Seq<u8>, target: Seq<u8>, ttl: u32)
    requires
        valid_host(ptr_name),
        valid_host(target),
    ensures
        message_parse(response_bytes(id, ptr_name, DNS_TYPE_PTR, ttl, name_bytes(target))) == Ok::<MessageModel, DnsError>(
            response_model(id, ptr_name, DNS_TYPE_PTR, ttl, RecordModel::Ptr(name_text(host_labels(target)))),
        ),
{
    lemma_host_name_bytes(target);
    let rdata = name_bytes(target);
    let data = response_bytes(id, ptr_name, DNS_TYPE_PTR, ttl, rdata);
    let c: int = 12 + ptr_name.len() as int + 18;
    lemma_response_layout(id, ptr_name, DNS_TYPE_PTR, ttl, rdata);
    lemma_name_at(data, c, target);
    lemma_response_readback(id, ptr_name, DNS_TYPE_PTR, ttl, rdata, RecordModel::Ptr(name_text(host_labels(target))));
}

proof fn lemma_mx_rdata(data: Seq<u8>, c: int, preference: u16, exchange: Seq<u8>, ttl: u32)
    requires
        valid_host(exchange),
        0 <= c,
        c + exchange.len() + 4 <= data.len(),
        data.subrange(c, c + exchange.len() as int + 4) == u16_bytes(preference) + name_bytes(exchange),
    ensures
        rdata_parse(data, c, exchange.len() as int + 4, DNS_TYPE_MX, DNS_CLASS_IN, ttl) == Ok::<RecordModel, DnsError>(
            RecordModel::Mx { preference, exchange: name_text(host_labels(exchange)) },
        ),
{
    lemma_host_name_bytes(exchange);
    let w = data.subrange(c, c + exchange.len() as int + 4);
    assert(data.subrange(c, c + 2) =~= w.subrange(0, 2));
    assert(w.subrange(0, 2) =~= u16_bytes(preference));
    lemma_be16_in(data, c, preference);
    assert(data.subrange(c + 2, c + 2 + exchange.len() + 2) =~= w.subrange(2, exchange.len() as int + 4));
    assert(w.subrange(2, exchange.len() as int + 4) =~= name_bytes(exchange));
    lemma_name_at(data, c + 2, exchange);
}

proof fn lemma_srv_rdata(data: Seq<u8>, c: int, priority: u16, weight: u16, port: u16, target: Seq<u8>, ttl: u32)
    requires
        valid_host(target),
        0 <= c,
        c + target.len() + 8 <= data.len(),
        data.subrange(c, c + target.len() as int + 8) == u16_bytes(priority) + u16_bytes(weight) + u16_bytes(port) + name_bytes(target),
    ensures
        rdata_parse(data, c, target.len() as int + 8, DNS_TYPE_SRV, DNS_CLASS_IN, ttl) == Ok::<RecordModel, DnsError>(
            RecordModel::Srv { priority, weight, port, target: name_text(host_labels(target)) },
        ),
{
    lemma_host_name_bytes(target);
    let w = data.subrange(c, c + target.len() as int + 8);
    assert(data.subrange(c, c + 2) =~= w.subrange(0, 2));
    assert(w.subrange(0, 2) =~= u16_bytes(priority));
    assert(data.subrange(c + 2, c + 4) =~= w.subrange(2, 4));
    assert(w.subrange(2, 4) =~= u16_bytes(weight));
    assert(data.subrange(c + 4, c + 6) =~= w.subrange(4, 6));
    assert(w.subrange(4, 6) =~= u16_bytes(port));
    lemma_be16_in(data, c, priority);
    lemma_be16_in(data, c + 2, weight);
    lemma_be16_in(data, c + 4, port);
    assert(data.subrange(c + 6, c + 6 + target.len() + 2) =~= w.subrange(6, target.len() as int + 8));
    assert(w.subrange(6, target.len() as int + 8) =~= name_bytes(target));
    lemma_name_at(data, c + 6, target);
}

/// An MX response built for valid names reads back with one MX record of the given
/// preference whose exchange is the labels of `exchange`.
pub proof fn lemma_mx_response_readback(id: u16, host: Seq<u8>, preference: u16, exchange: Seq<u8>, ttl: u32)
    requires
        valid_host(host),
        valid_host(exchange),
    ensures
        message_parse(response_bytes(id, host, DNS_TYPE_MX, ttl, u16_bytes(preference) + name_bytes(exchange)))
            == Ok::<MessageModel, DnsError>(
            response_model(
                id,
                host,
                DNS_TYPE_MX,
                ttl,
                RecordModel::Mx { preference, exchange: name_text(host_labels(exchange)) },
            ),
        ),
{
    lemma_host_name_bytes(exchange);
    let rdata = u16_bytes(preference) + name_bytes(exchange);
    let data = response_bytes(id, host, DNS_TYPE_MX, ttl, rdata);
    let c: int = 12 + host.len() as int + 18;
    lemma_response_layout(id, host, DNS_TYPE_MX, ttl, rdata);
    lemma_mx_rdata(data, c, preference, exchange, ttl);
    lemma_response_readback(
        id,
        host,
        DNS_TYPE_MX,
        ttl,
        rdata,
        RecordModel::Mx { preference, exchange: name_text(host_labels(exchange)) },
    );
}

/// An SRV response built for valid names reads back with one SRV record of the given
/// priority, weight and port whose target is the labels of `target`.
pub proof fn lemma_srv_response_readback(
    id: u16,
    host: Seq<u8>,
    priority: u16,
    weight: u16,
    port: u16,
    target: Seq<u8>,
    ttl: u32,
)
    requires
        valid_host(host),
        valid_host(target),
    ensures
        message_parse(
            response_bytes(id, host, DNS_TYPE_SRV, ttl, u16_bytes(priority) + u16_bytes(weight) + u16_bytes(port) + name_bytes(target)),
        ) == Ok::<MessageModel, DnsError>(
            response_model(
                id,
                host,
                DNS_TYPE_SRV,
                ttl,
                RecordModel::Srv { priority, weight, port, target: name_text(host_labels(target)) },
            ),
        ),
{
    lemma_host_name_bytes(target);
    let rdata = u16_bytes(priority) + u16_bytes(weight) + u16_bytes(port) + name_bytes(target);
    let data = response_bytes(id, host, DNS_TYPE_SRV, ttl, rdata);
    let c: int = 12 + host.len() as int + 18;
    lemma_response_layout(id, host, DNS_TYPE_SRV, ttl, rdata);
    lemma_srv_rdata(data, c, priority, weight, port, target, ttl);
    lemma_response_readback(
        id,
        host,
        DNS_TYPE_SRV,
        ttl,
        rdata,
        RecordModel::Srv { priority, weight, port, target: name_text(host_labels(target)) },
    );
}

} // verus!
