//! Diameter Sy: spending limit reporting between the PCRF and the OCS (3GPP TS 29.219 /
//! TS 23.203), Application ID 16777302.
//!
//! Spending-Limit-Request/Answer (command 8388635), Spending-Status-Notification
//! Request/Answer (command 8388636), Policy-Counter-Status-Report grouped AVPs, an OCS
//! that reports policy counter status and notifies subscribed sessions of changes, and a
//! PCRF client that caches the reported status per session.
use vstd::prelude::*;
use vstd::utf8::{decode_utf8, encode_utf8, valid_utf8};
use crate::diameter::{
    AvpModel, DiameterAvp, DiameterHeader, DiameterMessage, avp_models, avps_bytes, avp_bytes, avp_parse,
    avp_wf, mandatory_avp, serialize_avps, lemma_avp_roundtrip, DIAMETER_SUCCESS,
};
use crate::diameter_charging::{text_avp, u32_avp};
use crate::diameter_gx::text_avp_of;
use crate::table::{StrTable, count_entries, count_matching};
use crate::text::{owned, str_eq};
use crate::wire::{be24_at, be32_at, copy_range, read_u24, read_u32, u32_bytes};

verus! {

pub const DIAMETER_APPLICATION_SY: u32 = 16777302;

pub const DIAMETER_CMD_SPENDING_LIMIT: u32 = 8388635;
pub const DIAMETER_CMD_SPENDING_STATUS_NOTIFICATION: u32 = 8388636;
pub const DIAMETER_CMD_SESSION_TERMINATION: u32 = 275;

pub const AVP_POLICY_COUNTER_IDENTIFIER: u32 = 2901;
pub const AVP_POLICY_COUNTER_STATUS: u32 = 2902;
pub const AVP_POLICY_COUNTER_STATUS_REPORT: u32 = 2903;
pub const AVP_SL_REQUEST_TYPE: u32 = 2904;
pub const AVP_SUBSCRIPTION_ID: u32 = 443;
pub const AVP_SUBSCRIPTION_ID_DATA: u32 = 444;
pub const AVP_SUBSCRIPTION_ID_TYPE: u32 = 450;
pub const AVP_SESSION_ID: u32 = 263;
pub const AVP_RESULT_CODE: u32 = 268;
pub const AVP_ORIGIN_HOST: u32 = 264;
pub const AVP_ORIGIN_REALM: u32 = 296;
pub const AVP_DESTINATION_REALM: u32 = 283;

/// SL-Request-Type (AVP 2904).
#[derive(Debug, Clone, Copy, PartialEq, Eq, Structural)]
pub enum SlRequestType {
    InitialRequest,
    IntermediateRequest,
    StopRequest,
}

pub open spec fn sl_type_code(t: SlRequestType) -> u32 {
    match t {
        SlRequestType::InitialRequest => 0,
        SlRequestType::IntermediateRequest => 1,
        SlRequestType::StopRequest => 2,
    }
}

/// The request type of a code; codes above 1 stop.
pub open spec fn sl_type_of(v: u32) -> SlRequestType {
    if v == 0 {
        SlRequestType::InitialRequest
    } else if v == 1 {
        SlRequestType::IntermediateRequest
    } else {
        SlRequestType::StopRequest
    }
}

impl SlRequestType {
    pub fn from_u32(v: u32) -> (r: Self)
        ensures
            r == sl_type_of(v),
    {
        match v {
            0 => SlRequestType::InitialRequest,
            1 => SlRequestType::IntermediateRequest,
            _ => SlRequestType::StopRequest,
        }
    }

    pub fn as_u32(self) -> (r: u32)
        ensures
            r == sl_type_code(self),
    {
        match self {
            SlRequestType::InitialRequest => 0,
            SlRequestType::IntermediateRequest => 1,
            SlRequestType::StopRequest => 2,
        }
    }
}

/// Every request type survives its code.
pub proof fn lemma_sl_type_roundtrip(t: SlRequestType)
    ensures
        sl_type_of(sl_type_code(t)) == t,
{
}

// ---------------------------------------------------------------------------
// Reading the AVPs inside a grouped AVP
// ---------------------------------------------------------------------------

/// The (code, value) pairs read from the AVPs at the front of `s`, as far as their
/// lengths are sound: an AVP needs eight octets of header and a length of at least
/// eight that fits; its value follows a header of eight octets, or twelve where
/// `vendor_aware` and the V bit is set (an AVP too short for that header gives no
/// value); padding to four octets follows. Reading stops at the first unsound AVP.
pub open spec fn scan_fields(s: Seq<u8>, vendor_aware: bool) -> Seq<(u32, Seq<u8>)>
    decreases s.len(),
{
    if s.len() < 8 {
        Seq::empty()
    } else {
        let len = be24_at(s, 5);
        if len < 8 || len > s.len() {
            Seq::empty()
        } else {
            let hl: int = if vendor_aware && s[4] & 0x80u8 != 0 { 12 } else { 8 };
            let here: Seq<(u32, Seq<u8>)> = if len >= hl {
                seq![(be32_at(s, 0) as u32, s.subrange(hl, len))]
            } else {
                Seq::empty()
            };
            let next = len + ((4 - len % 4) % 4);
            here + (if next < s.len() { scan_fields(s.skip(next), vendor_aware) } else { Seq::empty() })
        }
    }
}

/// Pairs of code and octets taken as sequences.
pub open spec fn fields_view(v: Seq<(u32, Vec<u8>)>) -> Seq<(u32, Seq<u8>)> {
    v.map_values(|e: (u32, Vec<u8>)| (e.0, e.1@))
}

/// Reads the (code, value) pairs of the AVPs in `data` (see `scan_fields`).
fn scan_grouped(data: &[u8], vendor_aware: bool) -> (r: Vec<(u32, Vec<u8>)>)
    ensures
        fields_view(r@) == scan_fields(data@, vendor_aware),
{
    let mut out: Vec<(u32, Vec<u8>)> = Vec::new();
    let mut off: usize = 0;
    assert(data@.skip(0) =~= data@);
    while data.len() - off >= 8
        invariant
            off <= data@.len(),
            fields_view(out@) + scan_fields(data@.skip(off as int), vendor_aware) == scan_fields(data@, vendor_aware),
        decreases data@.len() - off,
    {
        let ghost s = data@.skip(off as int);
        let ghost before = out@;
        let code = read_u32(data, off);
        let flags = data[off + 4];
        let len = read_u24(data, off + 5) as usize;
        assert(be32_at(s, 0) == be32_at(data@, off as int));
        assert(be24_at(s, 5) == be24_at(data@, off + 5));
        assert(s[4] == flags);
        if len < 8 || len > data.len() - off {
            assert(scan_fields(s, vendor_aware) =~= Seq::<(u32, Seq<u8>)>::empty());
            assert(data@.skip(data@.len() as int) =~= Seq::<u8>::empty());
            off = data.len();
            assert(fields_view(out@) =~= fields_view(out@) + Seq::<(u32, Seq<u8>)>::empty());
        } else {
            let hl: usize = if vendor_aware && flags & 0x80u8 != 0 { 12 } else { 8 };
            if len >= hl {
                let value = copy_range(data, off + hl, off + len);
                assert(value@ =~= s.subrange(hl as int, len as int));
                out.push((code, value));
                assert(fields_view(out@) =~= fields_view(before).push((code, value@)));
            }
            let pad: usize = (4 - len % 4) % 4;
            let next = len + pad;
            let ghost here: Seq<(u32, Seq<u8>)> = if len >= hl {
                seq![(code, s.subrange(hl as int, len as int))]
            } else {
                Seq::empty()
            };
            assert(fields_view(out@) =~= fields_view(before) + here);
            if next >= data.len() - off {
                assert(scan_fields(s, vendor_aware) == here + Seq::<(u32, Seq<u8>)>::empty());
                assert(data@.skip(data@.len() as int) =~= Seq::<u8>::empty());
                off = data.len();
                assert(fields_view(out@) + scan_fields(data@.skip(off as int), vendor_aware) =~= fields_view(before) + here);
                assert(here + Seq::<(u32, Seq<u8>)>::empty() =~= here);
            } else {
                assert(s.skip(next as int) =~= data@.skip(off + next));
                assert(scan_fields(s, vendor_aware) == here + scan_fields(data@.skip(off + next), vendor_aware));
                off = off + next;
                assert(fields_view(before) + (here + scan_fields(data@.skip(off as int), vendor_aware)) =~= fields_view(
                    out@,
                ) + scan_fields(data@.skip(off as int), vendor_aware));
            }
        }
    }
    assert(scan_fields(data@.skip(off as int), vendor_aware) =~= Seq::<(u32, Seq<u8>)>::empty());
    assert(fields_view(out@) + Seq::<(u32, Seq<u8>)>::empty() =~= fields_view(out@));
    out
}

/// The text of octets, where they are well-formed UTF-8.
pub open spec fn utf8_text(b: Seq<u8>) -> Option<Seq<char>> {
    if valid_utf8(b) { Some(decode_utf8(b)) } else { None }
}

/// The text of the last value with `code`, or `None` where there is none or it is not
/// well-formed UTF-8.
pub open spec fn last_text(fs: Seq<(u32, Seq<u8>)>, code: u32) -> Option<Seq<char>>
    decreases fs.len(),
{
    if fs.len() == 0 {
        None
    } else if fs.last().0 == code {
        utf8_text(fs.last().1)
    } else {
        last_text(fs.drop_last(), code)
    }
}

/// The text of the last value with `code` that is well-formed UTF-8.
pub open spec fn last_valid_text(fs: Seq<(u32, Seq<u8>)>, code: u32) -> Option<Seq<char>>
    decreases fs.len(),
{
    if fs.len() == 0 {
        None
    } else if fs.last().0 == code && valid_utf8(fs.last().1) {
        Some(decode_utf8(fs.last().1))
    } else {
        last_valid_text(fs.drop_last(), code)
    }
}

/// An optional string taken by its characters.
pub open spec fn opt_chars(o: Option<String>) -> Option<Seq<char>> {
    match o {
        Some(s) => Some(s@),
        None => None,
    }
}

/// Policy-Counter-Status-Report (AVP 2903): a counter and its status.
#[derive(Debug, Clone, PartialEq, Eq)]
pub struct PolicyCounterStatusReport {
    pub counter_id: String,
    pub current_status: String,
}

/// A report taken by its texts.
pub open spec fn report_view(r: PolicyCounterStatusReport) -> (Seq<char>, Seq<char>) {
    (r.counter_id@, r.current_status@)
}

/// Reports taken by their texts.
pub open spec fn reports_view(rs: Seq<PolicyCounterStatusReport>) -> Seq<(Seq<char>, Seq<char>)> {
    rs.map_values(|r: PolicyCounterStatusReport| report_view(r))
}

/// The inner AVPs of a report: the counter, then its status.
pub open spec fn report_inner(counter: Seq<char>, status: Seq<char>) -> Seq<AvpModel> {
    seq![text_avp_of(AVP_POLICY_COUNTER_IDENTIFIER, counter), text_avp_of(AVP_POLICY_COUNTER_STATUS, status)]
}

/// The grouped AVP of a report.
pub open spec fn report_avp(counter: Seq<char>, status: Seq<char>) -> AvpModel {
    mandatory_avp(AVP_POLICY_COUNTER_STATUS_REPORT, avps_bytes(report_inner(counter, status)))
}

/// The report read from the data of a grouped AVP: the last counter and the last status
/// (each `None` where its last value is not UTF-8); a report needs both.
pub open spec fn report_parse(data: Seq<u8>) -> Option<(Seq<char>, Seq<char>)> {
    let fs = scan_fields(data, true);
    match (last_text(fs, AVP_POLICY_COUNTER_IDENTIFIER), last_text(fs, AVP_POLICY_COUNTER_STATUS)) {
        (Some(c), Some(s)) => Some((c, s)),
        _ => None,
    }
}

impl PolicyCounterStatusReport {
    pub fn new(counter_id: &str, current_status: &str) -> (r: Self)
        ensures
            r.counter_id@ == counter_id@,
            r.current_status@ == current_status@,
    {
        PolicyCounterStatusReport { counter_id: owned(counter_id), current_status: owned(current_status) }
    }

    /// A copy of this report.
    pub fn copy(&self) -> (r: Self)
        ensures
            report_view(r) == report_view(*self),
    {
        PolicyCounterStatusReport { counter_id: self.counter_id.clone(), current_status: self.current_status.clone() }
    }

    /// The report as a grouped AVP.
    pub fn to_avp(&self) -> (r: DiameterAvp)
        ensures
            r@ == report_avp(self.counter_id@, self.current_status@),
    {
        let mut inner: Vec<DiameterAvp> = Vec::new();
        inner.push(DiameterAvp::new_utf8(AVP_POLICY_COUNTER_IDENTIFIER, self.counter_id.as_str()));
        inner.push(DiameterAvp::new_utf8(AVP_POLICY_COUNTER_STATUS, self.current_status.as_str()));
        assert(avp_models(inner@) =~= report_inner(self.counter_id@, self.current_status@));
        let payload = serialize_avps(&inner);
        DiameterAvp::new(AVP_POLICY_COUNTER_STATUS_REPORT, payload.as_slice())
    }

    /// Reads a report from a grouped AVP (see `report_parse`).
    pub fn from_avp(avp: &DiameterAvp) -> (r: Option<Self>)
        ensures
            match r {
                Some(rep) => report_parse(avp.data@) == Some(report_view(rep)),
                None => report_parse(avp.data@) is None,
            },
    {
        let fields = scan_grouped(avp.data.as_slice(), true);
        let ghost fs = fields_view(fields@);
        let mut counter_id: Option<String> = None;
        let mut current_status: Option<String> = None;
        let mut i: usize = 0;
        assert(fs.take(0) =~= Seq::<(u32, Seq<u8>)>::empty());
        while i < fields.len()
            invariant
                fs == fields_view(fields@),
                fs == scan_fields(avp.data@, true),
                i <= fields@.len(),
                opt_chars(counter_id) == last_text(fs.take(i as int), AVP_POLICY_COUNTER_IDENTIFIER),
                opt_chars(current_status) == last_text(fs.take(i as int), AVP_POLICY_COUNTER_STATUS),
            decreases fields@.len() - i,
        {
            proof {
                assert(fs.take(i + 1).drop_last() =~= fs.take(i as int));
                assert(fs.take(i + 1).last() == fs[i as int]);
            }
            let code = fields[i].0;
            if code == AVP_POLICY_COUNTER_IDENTIFIER {
                counter_id = crate::text::string_from_utf8(copy_range(fields[i].1.as_slice(), 0, fields[i].1.len()));
                assert(fields[i as int].1@.subrange(0, fields[i as int].1@.len() as int) =~= fields[i as int].1@);
            } else if code == AVP_POLICY_COUNTER_STATUS {
                current_status = crate::text::string_from_utf8(copy_range(fields[i].1.as_slice(), 0, fields[i].1.len()));
                assert(fields[i as int].1@.subrange(0, fields[i as int].1@.len() as int) =~= fields[i as int].1@);
            }
            i = i + 1;
        }
        assert(fs.take(i as int) =~= fs);
        match (counter_id, current_status) {
            (Some(c), Some(s)) => Some(PolicyCounterStatusReport { counter_id: c, current_status: s }),
            _ => None,
        }
    }
}

/// Reading an AVP that the codec decodes, and carries no Vendor-ID, gives its code and data.
proof fn lemma_scan_parsed(s: Seq<u8>, vendor_aware: bool)
    requires
        avp_parse(s) matches Some((a, n)) && a.vendor_id is None,
    ensures
        ({
            let (a, n) = avp_parse(s).unwrap();
            scan_fields(s, vendor_aware) == seq![(a.code, a.data)] + (if n < s.len() {
                scan_fields(s.skip(n), vendor_aware)
            } else {
                Seq::empty()
            })
        }),
{
    let len = be24_at(s, 5);
    assert((len + 3) / 4 * 4 == len + (4 - len % 4) % 4) by (nonlinear_arith)
        requires
            len >= 0,
    ;
}

/// A text AVP of a few octets is one that the codec carries unchanged.
proof fn lemma_text_avp_wf(code: u32, t: Seq<char>)
    requires
        encode_utf8(t).len() < 0x100_0000 - 8,
    ensures
        avp_wf(text_avp_of(code, t)),
{
    assert(0x40u8 & 0x80u8 == 0) by (bit_vector);
}

/// A report survives its grouped AVP: reading the AVP's data gives back the counter and
/// the status, as long as each fits an AVP.
pub proof fn lemma_report_roundtrip(counter: Seq<char>, status: Seq<char>)
    requires
        encode_utf8(counter).len() < 0x100_0000 - 8,
        encode_utf8(status).len() < 0x100_0000 - 8,
    ensures
        report_parse(avps_bytes(report_inner(counter, status))) == Some((counter, status)),
{
    let t1 = text_avp_of(AVP_POLICY_COUNTER_IDENTIFIER, counter);
    let t2 = text_avp_of(AVP_POLICY_COUNTER_STATUS, status);
    let l = report_inner(counter, status);
    lemma_text_avp_wf(AVP_POLICY_COUNTER_IDENTIFIER, counter);
    lemma_text_avp_wf(AVP_POLICY_COUNTER_STATUS, status);
    let b1 = avp_bytes(t1);
    let b2 = avp_bytes(t2);
    assert(l.skip(1) =~= seq![t2]);
    assert(seq![t2].skip(1) =~= Seq::<AvpModel>::empty());
    assert(avps_bytes(Seq::<AvpModel>::empty()) == Seq::<u8>::empty());
    assert(seq![t2][0] == t2);
    assert(avps_bytes(seq![t2]) == avp_bytes(t2) + avps_bytes(seq![t2].skip(1)));
    assert(avps_bytes(seq![t2]) =~= b2);
    assert(l[0] == t1);
    assert(avps_bytes(l) == avp_bytes(t1) + avps_bytes(l.skip(1)));
    let data = avps_bytes(l);
    assert(data =~= b1 + b2);
    lemma_avp_roundtrip(t1, b2);
    lemma_avp_roundtrip(t2, Seq::<u8>::empty());
    assert(b2 + Seq::<u8>::empty() =~= b2);
    lemma_scan_parsed(data, true);
    assert(data.skip(b1.len() as int) =~= b2);
    lemma_scan_parsed(b2, true);
    let fs = scan_fields(data, true);
    assert(fs =~= seq![(AVP_POLICY_COUNTER_IDENTIFIER, encode_utf8(counter)), (AVP_POLICY_COUNTER_STATUS, encode_utf8(status))]);
    assert(fs.drop_last() =~= seq![(AVP_POLICY_COUNTER_IDENTIFIER, encode_utf8(counter))]);
    vstd::utf8::encode_utf8_valid_utf8(counter);
    vstd::utf8::encode_utf8_decode_utf8(counter);
    vstd::utf8::encode_utf8_valid_utf8(status);
    vstd::utf8::encode_utf8_decode_utf8(status);
    assert(last_text(fs, AVP_POLICY_COUNTER_STATUS) == Some(status));
    assert(last_text(fs.drop_last(), AVP_POLICY_COUNTER_IDENTIFIER) == Some(counter));
    assert(last_text(fs, AVP_POLICY_COUNTER_IDENTIFIER) == Some(counter));
}

// ---------------------------------------------------------------------------
// Messages
// ---------------------------------------------------------------------------

/// The header of an Sy message.
pub open spec fn sy_header(flags: u8, command_code: u32, hop_by_hop_id: u32, end_to_end_id: u32) -> DiameterHeader {
    DiameterHeader {
        version: 1,
        length: 0,
        flags,
        command_code,
        application_id: DIAMETER_APPLICATION_SY,
        hop_by_hop_id,
        end_to_end_id,
    }
}

fn sy_message(flags: u8, command_code: u32, hop_by_hop_id: u32, end_to_end_id: u32) -> (r: DiameterMessage)
    ensures
        r.header == sy_header(flags, command_code, hop_by_hop_id, end_to_end_id),
        r@.avps == Seq::<AvpModel>::empty(),
{
    let r = DiameterMessage {
        header: DiameterHeader {
            version: 1,
            length: 0,
            flags,
            command_code,
            application_id: DIAMETER_APPLICATION_SY,
            hop_by_hop_id,
            end_to_end_id,
        },
        avps: Vec::new(),
    };
    assert(r@.avps =~= Seq::<AvpModel>::empty());
    r
}

/// A mandatory Unsigned32 AVP.
pub open spec fn sy_u32_avp(code: u32, v: u32) -> AvpModel {
    mandatory_avp(code, u32_bytes(v))
}

/// The inner AVPs of a Subscription-Id: type 0, then the identifier.
pub open spec fn subscription_inner(sub: Seq<char>) -> Seq<AvpModel> {
    seq![sy_u32_avp(AVP_SUBSCRIPTION_ID_TYPE, 0), text_avp_of(AVP_SUBSCRIPTION_ID_DATA, sub)]
}

/// One Policy-Counter-Identifier AVP per counter.
pub open spec fn counter_avps(cs: Seq<Seq<char>>) -> Seq<AvpModel> {
    cs.map_values(|c: Seq<char>| text_avp_of(AVP_POLICY_COUNTER_IDENTIFIER, c))
}

/// One grouped report AVP per report.
pub open spec fn report_avps(rs: Seq<(Seq<char>, Seq<char>)>) -> Seq<AvpModel> {
    rs.map_values(|r: (Seq<char>, Seq<char>)| report_avp(r.0, r.1))
}

/// The texts of the AVPs with `code` that are well-formed UTF-8, in order.
pub open spec fn texts_with(avps: Seq<AvpModel>, code: u32) -> Seq<Seq<char>>
    decreases avps.len(),
{
    if avps.len() == 0 {
        Seq::empty()
    } else {
        let a = avps.last();
        texts_with(avps.drop_last(), code) + (if a.code == code && valid_utf8(a.data) {
            seq![decode_utf8(a.data)]
        } else {
            Seq::empty()
        })
    }
}

/// The reports of the report AVPs that read as reports, in order.
pub open spec fn reports_in(avps: Seq<AvpModel>) -> Seq<(Seq<char>, Seq<char>)>
    decreases avps.len(),
{
    if avps.len() == 0 {
        Seq::empty()
    } else {
        let a = avps.last();
        reports_in(avps.drop_last()) + (if a.code == AVP_POLICY_COUNTER_STATUS_REPORT && report_parse(a.data) is Some {
            seq![report_parse(a.data).unwrap()]
        } else {
            Seq::empty()
        })
    }
}

/// The subscription identifier of a request: the last well-formed identifier inside its
/// first Subscription-Id AVP (headers taken as eight octets), or empty text.
pub open spec fn subscription_of(avps: Seq<AvpModel>) -> Seq<char> {
    match crate::diameter::find_avp(avps, AVP_SUBSCRIPTION_ID) {
        Some(a) => match last_valid_text(scan_fields(a.data, false), AVP_SUBSCRIPTION_ID_DATA) {
            Some(t) => t,
            None => Seq::empty(),
        },
        None => Seq::empty(),
    }
}

fn add_reports(m: &mut DiameterMessage, rs: &Vec<PolicyCounterStatusReport>)
    ensures
        final(m).header == old(m).header,
        final(m)@.avps == old(m)@.avps + report_avps(reports_view(rs@)),
{
    let ghost a0 = m@.avps;
    let mut i: usize = 0;
    while i < rs.len()
        invariant
            i <= rs@.len(),
            m.header == old(m).header,
            a0 == old(m)@.avps,
            m@.avps == a0 + report_avps(reports_view(rs@.take(i as int))),
        decreases rs@.len() - i,
    {
        m.add_avp(rs[i].to_avp());
        i = i + 1;
        assert(report_avps(reports_view(rs@.take(i as int))) =~= report_avps(reports_view(rs@.take(i - 1))).push(
            report_avp(rs@[i - 1].counter_id@, rs@[i - 1].current_status@),
        ));
        assert(m@.avps =~= a0 + report_avps(reports_view(rs@.take(i as int))));
    }
    assert(rs@.take(i as int) =~= rs@);
}

/// Reads the reports of a message's report AVPs (see `reports_in`).
fn read_reports(msg: &DiameterMessage) -> (r: Vec<PolicyCounterStatusReport>)
    ensures
        reports_view(r@) == reports_in(msg@.avps),
{
    let mut out: Vec<PolicyCounterStatusReport> = Vec::new();
    let mut i: usize = 0;
    while i < msg.avps.len()
        invariant
            i <= msg.avps@.len(),
            reports_view(out@) == reports_in(msg@.avps.take(i as int)),
        decreases msg.avps@.len() - i,
    {
        let ghost before = out@;
        proof {
            assert(msg@.avps.take(i + 1).drop_last() =~= msg@.avps.take(i as int));
            assert(msg@.avps.take(i + 1).last() == msg.avps@[i as int]@);
        }
        if msg.avps[i].code == AVP_POLICY_COUNTER_STATUS_REPORT {
            match PolicyCounterStatusReport::from_avp(&msg.avps[i]) {
                Some(rep) => {
                    out.push(rep);
                    assert(reports_view(out@) =~= reports_view(before).push(report_view(rep)));
                },
                None => {},
            }
        }
        i = i + 1;
        assert(reports_view(out@) =~= reports_in(msg@.avps.take(i as int)));
    }
    assert(msg@.avps.take(i as int) =~= msg@.avps);
    out
}

/// Spending-Limit-Request.
#[derive(Debug, Clone, PartialEq, Eq)]
pub struct SpendingLimitRequest {
    pub session_id: String,
    pub request_type: SlRequestType,
    pub subscription_id: String,
    pub subscribed_counters: Vec<String>,
}

/// The AVPs of a Spending-Limit-Request: session, request type, Subscription-Id, then
/// one Policy-Counter-Identifier per subscribed counter.
pub open spec fn slr_avps(r: SpendingLimitRequest) -> Seq<AvpModel> {
    seq![
        text_avp_of(AVP_SESSION_ID, r.session_id@),
        sy_u32_avp(AVP_SL_REQUEST_TYPE, sl_type_code(r.request_type)),
        mandatory_avp(AVP_SUBSCRIPTION_ID, avps_bytes(subscription_inner(r.subscription_id@))),
    ] + counter_avps(crate::text::strings_view(r.subscribed_counters@))
}

impl SpendingLimitRequest {
    pub fn new(session_id: &str, request_type: SlRequestType, subscription_id: &str) -> (r: Self)
        ensures
            r.session_id@ == session_id@,
            r.request_type == request_type,
            r.subscription_id@ == subscription_id@,
            r.subscribed_counters@.len() == 0,
    {
        SpendingLimitRequest {
            session_id: owned(session_id),
            request_type,
            subscription_id: owned(subscription_id),
            subscribed_counters: Vec::new(),
        }
    }

    /// The request with `counter` added to its subscribed counters.
    pub fn with_counter(self, counter: &str) -> (r: Self)
        ensures
            r.session_id == self.session_id,
            r.request_type == self.request_type,
            r.subscription_id == self.subscription_id,
            crate::text::strings_view(r.subscribed_counters@) == crate::text::strings_view(self.subscribed_counters@).push(
                counter@,
            ),
    {
        let mut r = self;
        let ghost before = r.subscribed_counters@;
        r.subscribed_counters.push(owned(counter));
        assert(crate::text::strings_view(r.subscribed_counters@) =~= crate::text::strings_view(before).push(counter@));
        r
    }

    /// The request as a Diameter message (request and proxiable flags).
    pub fn to_diameter_message(&self, hop_by_hop_id: u32, end_to_end_id: u32) -> (r: DiameterMessage)
        ensures
            r.header == sy_header(0xC0, DIAMETER_CMD_SPENDING_LIMIT, hop_by_hop_id, end_to_end_id),
            r@.avps == slr_avps(*self),
    {
        let mut m = sy_message(0xC0, DIAMETER_CMD_SPENDING_LIMIT, hop_by_hop_id, end_to_end_id);
        m.add_avp(DiameterAvp::new_utf8(AVP_SESSION_ID, self.session_id.as_str()));
        m.add_avp(DiameterAvp::new_u32(AVP_SL_REQUEST_TYPE, self.request_type.as_u32()));
        let mut inner: Vec<DiameterAvp> = Vec::new();
        inner.push(DiameterAvp::new_u32(AVP_SUBSCRIPTION_ID_TYPE, 0));
        inner.push(DiameterAvp::new_utf8(AVP_SUBSCRIPTION_ID_DATA, self.subscription_id.as_str()));
        assert(avp_models(inner@) =~= subscription_inner(self.subscription_id@));
        let payload = serialize_avps(&inner);
        m.add_avp(DiameterAvp::new(AVP_SUBSCRIPTION_ID, payload.as_slice()));
        let ghost a0 = m@.avps;
        let ghost cs = crate::text::strings_view(self.subscribed_counters@);
        let mut i: usize = 0;
        while i < self.subscribed_counters.len()
            invariant
                i <= self.subscribed_counters@.len(),
                cs == crate::text::strings_view(self.subscribed_counters@),
                m.header == sy_header(0xC0, DIAMETER_CMD_SPENDING_LIMIT, hop_by_hop_id, end_to_end_id),
                m@.avps == a0 + counter_avps(cs.take(i as int)),
            decreases self.subscribed_counters@.len() - i,
        {
            m.add_avp(DiameterAvp::new_utf8(AVP_POLICY_COUNTER_IDENTIFIER, self.subscribed_counters[i].as_str()));
            i = i + 1;
            assert(counter_avps(cs.take(i as int)) =~= counter_avps(cs.take(i - 1)).push(
                text_avp_of(AVP_POLICY_COUNTER_IDENTIFIER, cs[i - 1]),
            ));
            assert(m@.avps =~= a0 + counter_avps(cs.take(i as int)));
        }
        assert(cs.take(i as int) =~= cs);
        assert(m@.avps =~= slr_avps(*self));
        m
    }

    /// Reads a request: the session identifier (first Session-Id, UTF-8) and request
    /// type (first SL-Request-Type) are required, in that order; the subscription comes from
    /// the Subscription-Id (see `subscription_of`) and the counters from every well-formed
    /// Policy-Counter-Identifier.
    pub fn from_diameter_message(msg: &DiameterMessage) -> (r: Result<Self, String>)
        ensures
            match text_avp(msg@.avps, AVP_SESSION_ID) {
                None => r matches Err(e) && e@ == "Missing Session-Id"@,
                Some(sid) => match u32_avp(msg@.avps, AVP_SL_REQUEST_TYPE) {
                    None => r matches Err(e) && e@ == "Missing SL-Request-Type"@,
                    Some(t) => r matches Ok(req) && req.session_id@ == sid && req.request_type == sl_type_of(t)
                        && req.subscription_id@ == subscription_of(msg@.avps)
                        && crate::text::strings_view(req.subscribed_counters@) == texts_with(
                        msg@.avps,
                        AVP_POLICY_COUNTER_IDENTIFIER,
                    ),
                },
            },
    {
        let session_id = match msg.get_avp(AVP_SESSION_ID) {
            Some(a) => match a.as_string() {
                Some(s) => s,
                None => {
                    return Err(owned("Missing Session-Id"));
                },
            },
            None => {
                return Err(owned("Missing Session-Id"));
            },
        };
        let t = match msg.get_avp(AVP_SL_REQUEST_TYPE) {
            Some(a) => match a.as_u32() {
                Some(v) => v,
                None => {
                    return Err(owned("Missing SL-Request-Type"));
                },
            },
            None => {
                return Err(owned("Missing SL-Request-Type"));
            },
        };
        let request_type = SlRequestType::from_u32(t);
        let subscription_id = match msg.get_avp(AVP_SUBSCRIPTION_ID) {
            Some(a) => {
                let fields = scan_grouped(a.data.as_slice(), false);
                let ghost fs = fields_view(fields@);
                let mut found: Option<String> = None;
                let mut i: usize = 0;
                while i < fields.len()
                    invariant
                        fs == fields_view(fields@),
                        i <= fields@.len(),
                        opt_chars(found) == last_valid_text(fs.take(i as int), AVP_SUBSCRIPTION_ID_DATA),
                    decreases fields@.len() - i,
                {
                    proof {
                        assert(fs.take(i + 1).drop_last() =~= fs.take(i as int));
                        assert(fs.take(i + 1).last() == fs[i as int]);
                    }
                    if fields[i].0 == AVP_SUBSCRIPTION_ID_DATA {
                        let v = copy_range(fields[i].1.as_slice(), 0, fields[i].1.len());
                        assert(v@ =~= fields[i as int].1@);
                        match crate::text::string_from_utf8(v) {
                            Some(s) => {
                                found = Some(s);
                            },
                            None => {},
                        }
                    }
                    i = i + 1;
                }
                assert(fs.take(i as int) =~= fs);
                match found {
                    Some(s) => s,
                    None => String::new(),
                }
            },
            None => String::new(),
        };
        let mut counters: Vec<String> = Vec::new();
        let mut i: usize = 0;
        while i < msg.avps.len()
            invariant
                i <= msg.avps@.len(),
                crate::text::strings_view(counters@) == texts_with(msg@.avps.take(i as int), AVP_POLICY_COUNTER_IDENTIFIER),
            decreases msg.avps@.len() - i,
        {
            let ghost before = counters@;
            proof {
                assert(msg@.avps.take(i + 1).drop_last() =~= msg@.avps.take(i as int));
                assert(msg@.avps.take(i + 1).last() == msg.avps@[i as int]@);
            }
            if msg.avps[i].code == AVP_POLICY_COUNTER_IDENTIFIER {
                match msg.avps[i].as_string() {
                    Some(s) => {
                        counters.push(s);
                        assert(crate::text::strings_view(counters@) =~= crate::text::strings_view(before).push(s@));
                    },
                    None => {},
                }
            }
            i = i + 1;
            assert(crate::text::strings_view(counters@) =~= texts_with(msg@.avps.take(i as int), AVP_POLICY_COUNTER_IDENTIFIER));
        }
        assert(msg@.avps.take(i as int) =~= msg@.avps);
        Ok(SpendingLimitRequest { session_id, request_type, subscription_id, subscribed_counters: counters })
    }
}

/// Spending-Limit-Answer.
#[derive(Debug, Clone, PartialEq, Eq)]
pub struct SpendingLimitAnswer {
    pub session_id: String,
    pub result_code: u32,
    pub reports: Vec<PolicyCounterStatusReport>,
}

impl SpendingLimitAnswer {
    pub fn new(session_id: &str, result_code: u32) -> (r: Self)
        ensures
            r.session_id@ == session_id@,
            r.result_code == result_code,
            r.reports@.len() == 0,
    {
        SpendingLimitAnswer { session_id: owned(session_id), result_code, reports: Vec::new() }
    }

    /// The answer with `report` added.
    pub fn with_report(self, report: PolicyCounterStatusReport) -> (r: Self)
        ensures
            r.session_id == self.session_id,
            r.result_code == self.result_code,
            r.reports@ == self.reports@.push(report),
    {
        let mut r = self;
        r.reports.push(report);
        r
    }

    /// The answer as a Diameter message (proxiable flag): session, result, then one
    /// report AVP per report.
    pub fn to_diameter_message(&self, hop_by_hop_id: u32, end_to_end_id: u32) -> (r: DiameterMessage)
        ensures
            r.header == sy_header(0x40, DIAMETER_CMD_SPENDING_LIMIT, hop_by_hop_id, end_to_end_id),
            r@.avps == seq![
                text_avp_of(AVP_SESSION_ID, self.session_id@),
                sy_u32_avp(AVP_RESULT_CODE, self.result_code),
            ] + report_avps(reports_view(self.reports@)),
    {
        let mut m = sy_message(0x40, DIAMETER_CMD_SPENDING_LIMIT, hop_by_hop_id, end_to_end_id);
        m.add_avp(DiameterAvp::new_utf8(AVP_SESSION_ID, self.session_id.as_str()));
        m.add_avp(DiameterAvp::new_u32(AVP_RESULT_CODE, self.result_code));
        assert(m@.avps =~= seq![
            text_avp_of(AVP_SESSION_ID, self.session_id@),
            sy_u32_avp(AVP_RESULT_CODE, self.result_code),
        ]);
        add_reports(&mut m, &self.reports);
        m
    }

    /// Reads an answer: session identifier, then result code, are required; the reports
    /// are those of its report AVPs that read as reports.
    pub fn from_diameter_message(msg: &DiameterMessage) -> (r: Result<Self, String>)
        ensures
            match text_avp(msg@.avps, AVP_SESSION_ID) {
                None => r matches Err(e) && e@ == "Missing Session-Id"@,
                Some(sid) => match u32_avp(msg@.avps, AVP_RESULT_CODE) {
                    None => r matches Err(e) && e@ == "Missing Result-Code"@,
                    Some(rc) => r matches Ok(a) && a.session_id@ == sid && a.result_code == rc
                        && reports_view(a.reports@) == reports_in(msg@.avps),
                },
            },
    {
        let session_id = match msg.get_avp(AVP_SESSION_ID) {
            Some(a) => match a.as_string() {
                Some(s) => s,
                None => {
                    return Err(owned("Missing Session-Id"));
                },
            },
            None => {
                return Err(owned("Missing Session-Id"));
            },
        };
        let result_code = match msg.get_avp(AVP_RESULT_CODE) {
            Some(a) => match a.as_u32() {
                Some(v) => v,
                None => {
                    return Err(owned("Missing Result-Code"));
                },
            },
            None => {
                return Err(owned("Missing Result-Code"));
            },
        };
        let reports = read_reports(msg);
        Ok(SpendingLimitAnswer { session_id, result_code, reports })
    }
}

/// Spending-Status-Notification-Request.
#[derive(Debug, Clone, PartialEq, Eq)]
pub struct SpendingStatusNotificationRequest {
    pub session_id: String,
    pub reports: Vec<PolicyCounterStatusReport>,
}

impl SpendingStatusNotificationRequest {
    pub fn new(session_id: &str) -> (r: Self)
        ensures
            r.session_id@ == session_id@,
            r.reports@.len() == 0,
    {
        SpendingStatusNotificationRequest { session_id: owned(session_id), reports: Vec::new() }
    }

    /// The notification with `report` added.
    pub fn with_report(self, report: PolicyCounterStatusReport) -> (r: Self)
        ensures
            r.session_id == self.session_id,
            r.reports@ == self.reports@.push(report),
    {
        let mut r = self;
        r.reports.push(report);
        r
    }

    /// The notification as a Diameter message (request and proxiable flags): session,
    /// then one report AVP per report.
    pub fn to_diameter_message(&self, hop_by_hop_id: u32, end_to_end_id: u32) -> (r: DiameterMessage)
        ensures
            r.header == sy_header(0xC0, DIAMETER_CMD_SPENDING_STATUS_NOTIFICATION, hop_by_hop_id, end_to_end_id),
            r@.avps == seq![text_avp_of(AVP_SESSION_ID, self.session_id@)] + report_avps(reports_view(self.reports@)),
    {
        let mut m = sy_message(0xC0, DIAMETER_CMD_SPENDING_STATUS_NOTIFICATION, hop_by_hop_id, end_to_end_id);
        m.add_avp(DiameterAvp::new_utf8(AVP_SESSION_ID, self.session_id.as_str()));
        assert(m@.avps =~= seq![text_avp_of(AVP_SESSION_ID, self.session_id@)]);
        add_reports(&mut m, &self.reports);
        m
    }

    /// Reads a notification: the session identifier is required; the reports are those of
    /// its report AVPs that read as reports.
    pub fn from_diameter_message(msg: &DiameterMessage) -> (r: Result<Self, String>)
        ensures
            match text_avp(msg@.avps, AVP_SESSION_ID) {
                None => r matches Err(e) && e@ == "Missing Session-Id"@,
                Some(sid) => r matches Ok(n) && n.session_id@ == sid && reports_view(n.reports@) == reports_in(
                    msg@.avps,
                ),
            },
    {
        let session_id = match msg.get_avp(AVP_SESSION_ID) {
            Some(a) => match a.as_string() {
                Some(s) => s,
                None => {
                    return Err(owned("Missing Session-Id"));
                },
            },
            None => {
                return Err(owned("Missing Session-Id"));
            },
        };
        let reports = read_reports(msg);
        Ok(SpendingStatusNotificationRequest { session_id, reports })
    }
}

/// Spending-Status-Notification-Answer.
#[derive(Debug, Clone, PartialEq, Eq)]
pub struct SpendingStatusNotificationAnswer {
    pub session_id: String,
    pub result_code: u32,
}

impl SpendingStatusNotificationAnswer {
    pub fn new(session_id: &str, result_code: u32) -> (r: Self)
        ensures
            r.session_id@ == session_id@,
            r.result_code == result_code,
    {
        SpendingStatusNotificationAnswer { session_id: owned(session_id), result_code }
    }

    /// The answer as a Diameter message (proxiable flag): session, then result.
    pub fn to_diameter_message(&self, hop_by_hop_id: u32, end_to_end_id: u32) -> (r: DiameterMessage)
        ensures
            r.header == sy_header(0x40, DIAMETER_CMD_SPENDING_STATUS_NOTIFICATION, hop_by_hop_id, end_to_end_id),
            r@.avps == seq![
                text_avp_of(AVP_SESSION_ID, self.session_id@),
                sy_u32_avp(AVP_RESULT_CODE, self.result_code),
            ],
    {
        let mut m = sy_message(0x40, DIAMETER_CMD_SPENDING_STATUS_NOTIFICATION, hop_by_hop_id, end_to_end_id);
        m.add_avp(DiameterAvp::new_utf8(AVP_SESSION_ID, self.session_id.as_str()));
        m.add_avp(DiameterAvp::new_u32(AVP_RESULT_CODE, self.result_code));
        assert(m@.avps =~= seq![
            text_avp_of(AVP_SESSION_ID, self.session_id@),
            sy_u32_avp(AVP_RESULT_CODE, self.result_code),
        ]);
        m
    }
}

// ---------------------------------------------------------------------------
// The OCS
// ---------------------------------------------------------------------------

/// The OCS side of Sy: the status of each subscriber's policy counters, and the active
/// sessions with their subscriber and subscribed counters (none: all counters).
#[derive(Debug, Clone)]
pub struct OcsSyEngine {
    pub subscriber_counters: StrTable<StrTable<String>>,
    pub active_sessions: StrTable<(String, Vec<String>)>,
}

/// A table of texts taken by its texts.
pub open spec fn text_map(t: StrTable<String>) -> Map<Seq<char>, Seq<char>> {
    t@.map_values(|v: String| v@)
}

/// Every table of a table of tables is well formed.
pub open spec fn nested_wf(t: StrTable<StrTable<String>>) -> bool {
    &&& t.wf()
    &&& forall|k: Seq<char>| #[trigger] t@.dom().contains(k) ==> t@[k].wf()
}

/// The counter status of a subscriber (none known: empty).
pub open spec fn counters_of(t: StrTable<StrTable<String>>, key: Seq<char>) -> Map<Seq<char>, Seq<char>> {
    if t@.dom().contains(key) { text_map(t@[key]) } else { Map::empty() }
}

/// The reports for the subscribed counters that have a status, in subscription order.
pub open spec fn reports_for(status: Map<Seq<char>, Seq<char>>, cs: Seq<Seq<char>>) -> Seq<(Seq<char>, Seq<char>)>
    decreases cs.len(),
{
    if cs.len() == 0 {
        Seq::empty()
    } else {
        reports_for(status, cs.drop_last()) + (if status.dom().contains(cs.last()) {
            seq![(cs.last(), status[cs.last()])]
        } else {
            Seq::empty()
        })
    }
}

/// Whether an active session follows `counter` of `subscriber`: it belongs to the
/// subscriber and subscribed to no counter in particular, or to this one.
pub open spec fn follows(subscriber: Seq<char>, counter: Seq<char>) -> spec_fn((String, Vec<String>)) -> bool {
    |v: (String, Vec<String>)| v.0@ == subscriber && (v.1@.len() == 0 || crate::text::strings_view(v.1@).contains(counter))
}

/// The OCS is well formed: its tables are.
pub open spec fn ocs_wf(e: OcsSyEngine) -> bool {
    nested_wf(e.subscriber_counters) && e.active_sessions.wf()
}

/// Stores `status` under `counter` in the table of `key`, made if missing.
fn nested_set(t: &mut StrTable<StrTable<String>>, key: &str, counter: &str, status: &str)
    requires
        nested_wf(*old(t)),
    ensures
        nested_wf(*final(t)),
        final(t)@.dom() == old(t)@.dom().insert(key@),
        forall|k: Seq<char>| k != key@ ==> #[trigger] final(t)@.get(k) == old(t)@.get(k),
        counters_of(*final(t), key@) == counters_of(*old(t), key@).insert(counter@, status@),
{
    let mut inner = match t.remove(key) {
        Some(v) => v,
        None => StrTable::new(),
    };
    let ghost before = text_map(inner);
    assert(before == counters_of(*old(t), key@));
    inner.insert(owned(counter), owned(status));
    assert(text_map(inner) =~= before.insert(counter@, status@));
    t.insert(owned(key), inner);
    assert(t@.dom() =~= old(t)@.dom().insert(key@));
    assert forall|k: Seq<char>| #[trigger] t@.dom().contains(k) implies t@[k].wf() by {
        if k != key@ {
            assert(old(t)@.dom().contains(k));
        }
    }
}

/// Applies reports to the table of `key`, made if missing.
fn nested_apply(t: &mut StrTable<StrTable<String>>, key: &str, rs: &Vec<PolicyCounterStatusReport>)
    requires
        nested_wf(*old(t)),
    ensures
        nested_wf(*final(t)),
        final(t)@.dom() == old(t)@.dom().insert(key@),
        forall|k: Seq<char>| k != key@ ==> #[trigger] final(t)@.get(k) == old(t)@.get(k),
        counters_of(*final(t), key@) == apply_reports(counters_of(*old(t), key@), reports_view(rs@)),
{
    let mut inner = match t.remove(key) {
        Some(v) => v,
        None => StrTable::new(),
    };
    let ghost before = text_map(inner);
    assert(before == counters_of(*old(t), key@));
    let mut i: usize = 0;
    while i < rs.len()
        invariant
            i <= rs@.len(),
            inner.wf(),
            text_map(inner) == apply_reports(before, reports_view(rs@.take(i as int))),
        decreases rs@.len() - i,
    {
        let ghost prev = text_map(inner);
        inner.insert(rs[i].counter_id.clone(), rs[i].current_status.clone());
        proof {
            let rv = reports_view(rs@.take(i + 1));
            assert(rv.drop_last() =~= reports_view(rs@.take(i as int)));
            assert(rv.last() == report_view(rs@[i as int]));
            assert(text_map(inner) =~= prev.insert(rs@[i as int].counter_id@, rs@[i as int].current_status@));
        }
        i = i + 1;
    }
    assert(rs@.take(i as int) =~= rs@);
    t.insert(owned(key), inner);
    assert(t@.dom() =~= old(t)@.dom().insert(key@));
    assert forall|k: Seq<char>| #[trigger] t@.dom().contains(k) implies t@[k].wf() by {
        if k != key@ {
            assert(old(t)@.dom().contains(k));
        }
    }
}

/// The status after reports, each in turn, the later winning.
pub open spec fn apply_reports(m: Map<Seq<char>, Seq<char>>, rs: Seq<(Seq<char>, Seq<char>)>) -> Map<Seq<char>, Seq<char>>
    decreases rs.len(),
{
    if rs.len() == 0 {
        m
    } else {
        apply_reports(m, rs.drop_last()).insert(rs.last().0, rs.last().1)
    }
}

impl Default for OcsSyEngine {
    fn default() -> (r: Self)
        ensures
            ocs_wf(r),
            r.subscriber_counters@ == Map::<Seq<char>, StrTable<String>>::empty(),
            r.active_sessions@ == Map::<Seq<char>, (String, Vec<String>)>::empty(),
    {
        OcsSyEngine::new()
    }
}

impl OcsSyEngine {
    pub fn new() -> (r: Self)
        ensures
            ocs_wf(r),
            r.subscriber_counters@ == Map::<Seq<char>, StrTable<String>>::empty(),
            r.active_sessions@ == Map::<Seq<char>, (String, Vec<String>)>::empty(),
    {
        OcsSyEngine { subscriber_counters: StrTable::new(), active_sessions: StrTable::new() }
    }

    /// Sets the status of a subscriber's counter.
    pub fn set_counter_status(&mut self, subscriber_id: &str, counter_id: &str, status: &str)
        requires
            ocs_wf(*old(self)),
        ensures
            ocs_wf(*final(self)),
            final(self).subscriber_counters@.dom() == old(self).subscriber_counters@.dom().insert(subscriber_id@),
            forall|k: Seq<char>| k != subscriber_id@ ==> #[trigger] final(self).subscriber_counters@.get(k)
                == old(self).subscriber_counters@.get(k),
            counters_of(final(self).subscriber_counters, subscriber_id@) == counters_of(
                old(self).subscriber_counters,
                subscriber_id@,
            ).insert(counter_id@, status@),
            final(self).active_sessions == old(self).active_sessions,
    {
        nested_set(&mut self.subscriber_counters, subscriber_id, counter_id, status);
    }

    /// Answers a Spending-Limit-Request with success. An initial or intermediate request
    /// (re)records the session with its subscriber and counters and reports the status of
    /// each subscribed counter that has one; a stop request forgets the session.
    pub fn handle_slr(&mut self, slr: &SpendingLimitRequest) -> (r: SpendingLimitAnswer)
        requires
            ocs_wf(*old(self)),
        ensures
            ocs_wf(*final(self)),
            r.session_id@ == slr.session_id@,
            r.result_code == DIAMETER_SUCCESS,
            final(self).subscriber_counters == old(self).subscriber_counters,
            slr.request_type == SlRequestType::StopRequest ==> {
                &&& r.reports@.len() == 0
                &&& final(self).active_sessions@ == old(self).active_sessions@.remove(slr.session_id@)
            },
            slr.request_type != SlRequestType::StopRequest ==> {
                &&& reports_view(r.reports@) == reports_for(
                    counters_of(old(self).subscriber_counters, slr.subscription_id@),
                    crate::text::strings_view(slr.subscribed_counters@),
                )
                &&& final(self).active_sessions@.dom() == old(self).active_sessions@.dom().insert(slr.session_id@)
                &&& forall|k: Seq<char>| k != slr.session_id@ ==> #[trigger] final(self).active_sessions@.get(k)
                    == old(self).active_sessions@.get(k)
                &&& final(self).active_sessions@[slr.session_id@].0@ == slr.subscription_id@
                &&& crate::text::strings_view(final(self).active_sessions@[slr.session_id@].1@)
                    == crate::text::strings_view(slr.subscribed_counters@)
            },
    {
        match slr.request_type {
            SlRequestType::StopRequest => {
                let _ = self.active_sessions.remove(slr.session_id.as_str());
                SpendingLimitAnswer::new(slr.session_id.as_str(), DIAMETER_SUCCESS)
            },
            _ => {
                self.active_sessions.insert(
                    slr.session_id.clone(),
                    (slr.subscription_id.clone(), crate::text::copy_strings(&slr.subscribed_counters)),
                );
                let mut sla = SpendingLimitAnswer::new(slr.session_id.as_str(), DIAMETER_SUCCESS);
                let ghost status = counters_of(self.subscriber_counters, slr.subscription_id@);
                let ghost cs = crate::text::strings_view(slr.subscribed_counters@);
                match self.subscriber_counters.get(slr.subscription_id.as_str()) {
                    Some(counters) => {
                        let mut i: usize = 0;
                        while i < slr.subscribed_counters.len()
                            invariant
                                i <= cs.len(),
                                cs == crate::text::strings_view(slr.subscribed_counters@),
                                counters.wf(),
                                text_map(*counters) == status,
                                sla.session_id@ == slr.session_id@,
                                sla.result_code == DIAMETER_SUCCESS,
                                reports_view(sla.reports@) == reports_for(status, cs.take(i as int)),
                            decreases cs.len() - i,
                        {
                            proof {
                                assert(cs.take(i + 1).drop_last() =~= cs.take(i as int));
                                assert(cs.take(i + 1).last() == cs[i as int]);
                            }
                            let ghost before = sla.reports@;
                            match counters.get(slr.subscribed_counters[i].as_str()) {
                                Some(st) => {
                                    let rep = PolicyCounterStatusReport::new(
                                        slr.subscribed_counters[i].as_str(),
                                        st.as_str(),
                                    );
                                    sla = sla.with_report(rep);
                                    assert(reports_view(sla.reports@) =~= reports_view(before).push(report_view(rep)));
                                },
                                None => {},
                            }
                            i = i + 1;
                        }
                        assert(cs.take(i as int) =~= cs);
                    },
                    None => {
                        proof {
                            lemma_reports_for_empty(cs);
                        }
                        assert(reports_view(sla.reports@) =~= Seq::<(Seq<char>, Seq<char>)>::empty());
                    },
                }
                sla
            },
        }
    }
}

/// No status, no reports.
proof fn lemma_reports_for_empty(cs: Seq<Seq<char>>)
    ensures
        reports_for(Map::empty(), cs) == Seq::<(Seq<char>, Seq<char>)>::empty(),
    decreases cs.len(),
{
    if cs.len() > 0 {
        lemma_reports_for_empty(cs.drop_last());
    }
}

impl OcsSyEngine {
    /// Sets the status of a subscriber's counter and notifies every active session that
    /// follows it (see `follows`): one notification per such session, each with one report
    /// of the counter and its new status. Sessions come in the order of the table.
    pub fn update_counter_and_notify(&mut self, subscriber_id: &str, counter_id: &str, new_status: &str) -> (r: Vec<
        SpendingStatusNotificationRequest,
    >)
        requires
            ocs_wf(*old(self)),
        ensures
            ocs_wf(*final(self)),
            final(self).subscriber_counters@.dom() == old(self).subscriber_counters@.dom().insert(subscriber_id@),
            forall|k: Seq<char>| k != subscriber_id@ ==> #[trigger] final(self).subscriber_counters@.get(k)
                == old(self).subscriber_counters@.get(k),
            counters_of(final(self).subscriber_counters, subscriber_id@) == counters_of(
                old(self).subscriber_counters,
                subscriber_id@,
            ).insert(counter_id@, new_status@),
            final(self).active_sessions == old(self).active_sessions,
            r@.len() == count_matching(old(self).active_sessions@, follows(subscriber_id@, counter_id@)),
            forall|i: int| 0 <= i < r@.len() ==> {
                let sid = #[trigger] r@[i].session_id@;
                &&& old(self).active_sessions@.dom().contains(sid)
                &&& follows(subscriber_id@, counter_id@)(old(self).active_sessions@[sid])
                &&& reports_view(r@[i].reports@) == seq![(counter_id@, new_status@)]
            },
            forall|i: int, j: int| 0 <= i < j < r@.len() ==> #[trigger] r@[i].session_id@ != #[trigger] r@[j].session_id@,
    {
        self.set_counter_status(subscriber_id, counter_id, new_status);
        let ghost p = follows(subscriber_id@, counter_id@);
        let ghost ps = self.active_sessions.pairs();
        let mut out: Vec<SpendingStatusNotificationRequest> = Vec::new();
        let ghost mut idx: Seq<int> = Seq::empty();
        let mut i: usize = 0;
        while i < self.active_sessions.len()
            invariant
                ps == self.active_sessions.pairs(),
                p == follows(subscriber_id@, counter_id@),
                self.active_sessions.wf(),
                i <= ps.len(),
                out@.len() == count_entries(ps.take(i as int), p),
                idx.len() == out@.len(),
                forall|a: int| 0 <= a < idx.len() ==> 0 <= #[trigger] idx[a] < i,
                forall|a: int, b: int| 0 <= a < b < idx.len() ==> #[trigger] idx[a] < #[trigger] idx[b],
                forall|a: int| 0 <= a < idx.len() ==> {
                    &&& (#[trigger] out@[a]).session_id@ == ps[idx[a]].0
                    &&& p(ps[idx[a]].1)
                    &&& reports_view(out@[a].reports@) == seq![(counter_id@, new_status@)]
                },
            decreases ps.len() - i,
        {
            proof {
                assert(ps.take(i + 1).drop_last() =~= ps.take(i as int));
            }
            let key = self.active_sessions.key_at(i);
            let v = self.active_sessions.value_at(i);
            let matches = str_eq(v.0.as_str(), subscriber_id) && (v.1.len() == 0 || crate::text::contains_str(
                &v.1,
                counter_id,
            ));
            assert(*v == ps[i as int].1);
            assert(matches == p(ps[i as int].1));
            assert(count_entries(ps.take(i + 1), p) == count_entries(ps.take(i as int), p) + (if p(ps[i as int].1) {
                1nat
            } else {
                0nat
            }));
            if matches {
                let rep = PolicyCounterStatusReport::new(counter_id, new_status);
                let snr = SpendingStatusNotificationRequest::new(key.as_str()).with_report(rep);
                proof {
                    assert(reports_view(snr.reports@) =~= seq![(counter_id@, new_status@)]);
                }
                out.push(snr);
                proof {
                    idx = idx.push(i as int);
                }
            }
            i = i + 1;
        }
        proof {
            assert(ps.take(i as int) =~= ps);
            self.active_sessions.lemma_count(p);
            assert forall|a: int| 0 <= a < out@.len() implies {
                let sid = #[trigger] out@[a].session_id@;
                &&& old(self).active_sessions@.dom().contains(sid)
                &&& p(old(self).active_sessions@[sid])
            } by {
                crate::table::lemma_pairs_map_at(ps, idx[a]);
            }
            assert forall|a: int, b: int| 0 <= a < b < out@.len() implies #[trigger] out@[a].session_id@
                != #[trigger] out@[b].session_id@ by {
                assert(idx[a] < idx[b]);
                assert(ps[idx[a]].0 != ps[idx[b]].0);
            }
        }
        out
    }

    /// Forgets a session; returns whether it was active.
    pub fn terminate_session(&mut self, session_id: &str) -> (r: bool)
        requires
            ocs_wf(*old(self)),
        ensures
            ocs_wf(*final(self)),
            r == old(self).active_sessions@.dom().contains(session_id@),
            final(self).active_sessions@ == old(self).active_sessions@.remove(session_id@),
            final(self).subscriber_counters == old(self).subscriber_counters,
    {
        self.active_sessions.remove(session_id).is_some()
    }

    /// The number of active sessions.
    pub fn active_session_count(&self) -> (r: usize)
        requires
            ocs_wf(*self),
        ensures
            r == self.active_sessions@.dom().len(),
    {
        proof {
            self.active_sessions.lemma_len();
        }
        self.active_sessions.len()
    }

    /// Takes `counter_id` out of a session's subscribed counters (its first occurrence);
    /// returns whether the session had subscribed to it. Otherwise nothing changes.
    pub fn unsubscribe_counter(&mut self, session_id: &str, counter_id: &str) -> (r: bool)
        requires
            ocs_wf(*old(self)),
        ensures
            ocs_wf(*final(self)),
            r == (old(self).active_sessions@.dom().contains(session_id@) && crate::text::strings_view(
                old(self).active_sessions@[session_id@].1@,
            ).contains(counter_id@)),
            !r ==> *final(self) == *old(self),
            r ==> {
                let o = old(self).active_sessions@[session_id@];
                let n = final(self).active_sessions@[session_id@];
                let pos = crate::text::first_index(crate::text::strings_view(o.1@), counter_id@).unwrap();
                &&& final(self).subscriber_counters == old(self).subscriber_counters
                &&& final(self).active_sessions@.dom() == old(self).active_sessions@.dom()
                &&& forall|k: Seq<char>| k != session_id@ ==> #[trigger] final(self).active_sessions@.get(k)
                    == old(self).active_sessions@.get(k)
                &&& n.0 == o.0
                &&& n.1@ == o.1@.remove(pos)
            },
    {
        let pos = match self.active_sessions.get(session_id) {
            Some(v) => match crate::text::find_string(&v.1, counter_id) {
                Some(p) => p,
                None => {
                    proof {
                        crate::text::lemma_first_index(crate::text::strings_view(v.1@), counter_id@);
                    }
                    return false;
                },
            },
            None => {
                return false;
            },
        };
        proof {
            crate::text::lemma_first_index(
                crate::text::strings_view(old(self).active_sessions@[session_id@].1@),
                counter_id@,
            );
        }
        match self.active_sessions.remove(session_id) {
            Some(v) => {
                let mut v = v;
                let _ = v.1.remove(pos);
                self.active_sessions.insert(owned(session_id), v);
            },
            None => {},
        }
        assert(self.active_sessions@.dom() =~= old(self).active_sessions@.dom());
        true
    }
}

// ---------------------------------------------------------------------------
// The PCRF client
// ---------------------------------------------------------------------------

/// The PCRF side of Sy: the status reported for each session's counters.
#[derive(Debug, Clone)]
pub struct PcrfSyClient {
    pub session_counter_cache: StrTable<StrTable<String>>,
}

impl Default for PcrfSyClient {
    fn default() -> (r: Self)
        ensures
            nested_wf(r.session_counter_cache),
            r.session_counter_cache@ == Map::<Seq<char>, StrTable<String>>::empty(),
    {
        PcrfSyClient::new()
    }
}

/// A request with these identities and counters, as the client makes them.
pub open spec fn client_slr(
    r: SpendingLimitRequest,
    sid: Seq<char>,
    t: SlRequestType,
    sub: Seq<char>,
    counters: Seq<&str>,
) -> bool {
    &&& r.session_id@ == sid
    &&& r.request_type == t
    &&& r.subscription_id@ == sub
    &&& crate::text::strings_view(r.subscribed_counters@) == counters.map_values(|c: &str| c@)
}

fn build_slr(session_id: &str, t: SlRequestType, subscriber_id: &str, counters: &[&str]) -> (r: SpendingLimitRequest)
    ensures
        client_slr(r, session_id@, t, subscriber_id@, counters@),
{
    let mut slr = SpendingLimitRequest::new(session_id, t, subscriber_id);
    let mut i: usize = 0;
    while i < counters.len()
        invariant
            i <= counters@.len(),
            slr.session_id@ == session_id@,
            slr.request_type == t,
            slr.subscription_id@ == subscriber_id@,
            crate::text::strings_view(slr.subscribed_counters@) == counters@.take(i as int).map_values(|c: &str| c@),
        decreases counters@.len() - i,
    {
        slr = slr.with_counter(counters[i]);
        i = i + 1;
        assert(counters@.take(i as int).map_values(|c: &str| c@) =~= counters@.take(i - 1).map_values(|c: &str| c@).push(
            counters@[i - 1]@,
        ));
    }
    assert(counters@.take(i as int) =~= counters@);
    slr
}

impl PcrfSyClient {
    pub fn new() -> (r: Self)
        ensures
            nested_wf(r.session_counter_cache),
            r.session_counter_cache@ == Map::<Seq<char>, StrTable<String>>::empty(),
    {
        PcrfSyClient { session_counter_cache: StrTable::new() }
    }

    /// Makes the initial request for a session and starts its cache afresh, empty.
    pub fn create_initial_slr(&mut self, session_id: &str, subscriber_id: &str, counters: &[&str]) -> (r:
        SpendingLimitRequest)
        requires
            nested_wf(old(self).session_counter_cache),
        ensures
            nested_wf(final(self).session_counter_cache),
            client_slr(r, session_id@, SlRequestType::InitialRequest, subscriber_id@, counters@),
            final(self).session_counter_cache@.dom() == old(self).session_counter_cache@.dom().insert(session_id@),
            forall|k: Seq<char>| k != session_id@ ==> #[trigger] final(self).session_counter_cache@.get(k)
                == old(self).session_counter_cache@.get(k),
            counters_of(final(self).session_counter_cache, session_id@) == Map::<Seq<char>, Seq<char>>::empty(),
    {
        let slr = build_slr(session_id, SlRequestType::InitialRequest, subscriber_id, counters);
        let fresh: StrTable<String> = StrTable::new();
        self.session_counter_cache.insert(owned(session_id), fresh);
        assert(text_map(fresh) =~= Map::<Seq<char>, Seq<char>>::empty());
        assert forall|k: Seq<char>| #[trigger] self.session_counter_cache@.dom().contains(k) implies self.session_counter_cache@[
            k
        ].wf() by {
            if k != session_id@ {
                assert(old(self).session_counter_cache@.dom().contains(k));
            }
        }
        slr
    }

    /// Takes a Spending-Limit-Answer: on success its reports go into the session's cache
    /// (made if missing), each in turn; otherwise nothing changes.
    pub fn process_sla(&mut self, sla: &SpendingLimitAnswer)
        requires
            nested_wf(old(self).session_counter_cache),
        ensures
            nested_wf(final(self).session_counter_cache),
            sla.result_code != DIAMETER_SUCCESS ==> *final(self) == *old(self),
            sla.result_code == DIAMETER_SUCCESS ==> {
                &&& final(self).session_counter_cache@.dom() == old(self).session_counter_cache@.dom().insert(
                    sla.session_id@,
                )
                &&& forall|k: Seq<char>| k != sla.session_id@ ==> #[trigger] final(self).session_counter_cache@.get(k)
                    == old(self).session_counter_cache@.get(k)
                &&& counters_of(final(self).session_counter_cache, sla.session_id@) == apply_reports(
                    counters_of(old(self).session_counter_cache, sla.session_id@),
                    reports_view(sla.reports@),
                )
            },
    {
        if sla.result_code == DIAMETER_SUCCESS {
            nested_apply(&mut self.session_counter_cache, sla.session_id.as_str(), &sla.reports);
        }
    }

    /// Takes a Spending-Status-Notification: its reports go into the session's cache (made
    /// if missing), each in turn; the answer is success.
    pub fn process_snr(&mut self, snr: &SpendingStatusNotificationRequest) -> (r: SpendingStatusNotificationAnswer)
        requires
            nested_wf(old(self).session_counter_cache),
        ensures
            nested_wf(final(self).session_counter_cache),
            r.session_id@ == snr.session_id@,
            r.result_code == DIAMETER_SUCCESS,
            final(self).session_counter_cache@.dom() == old(self).session_counter_cache@.dom().insert(snr.session_id@),
            forall|k: Seq<char>| k != snr.session_id@ ==> #[trigger] final(self).session_counter_cache@.get(k)
                == old(self).session_counter_cache@.get(k),
            counters_of(final(self).session_counter_cache, snr.session_id@) == apply_reports(
                counters_of(old(self).session_counter_cache, snr.session_id@),
                reports_view(snr.reports@),
            ),
    {
        nested_apply(&mut self.session_counter_cache, snr.session_id.as_str(), &snr.reports);
        SpendingStatusNotificationAnswer::new(snr.session_id.as_str(), DIAMETER_SUCCESS)
    }

    /// The cached status of a session's counter.
    pub fn get_counter_status(&self, session_id: &str, counter_id: &str) -> (r: Option<&str>)
        requires
            nested_wf(self.session_counter_cache),
        ensures
            match r {
                Some(st) => counters_of(self.session_counter_cache, session_id@).dom().contains(counter_id@)
                    && st@ == counters_of(self.session_counter_cache, session_id@)[counter_id@],
                None => !counters_of(self.session_counter_cache, session_id@).dom().contains(counter_id@),
            },
    {
        match self.session_counter_cache.get(session_id) {
            Some(c) => match c.get(counter_id) {
                Some(st) => Some(st.as_str()),
                None => None,
            },
            None => None,
        }
    }

    /// Makes an intermediate request for a session; the cache is left as it is.
    pub fn create_intermediate_slr(&mut self, session_id: &str, subscriber_id: &str, counters: &[&str]) -> (r:
        SpendingLimitRequest)
        ensures
            client_slr(r, session_id@, SlRequestType::IntermediateRequest, subscriber_id@, counters@),
            *final(self) == *old(self),
    {
        build_slr(session_id, SlRequestType::IntermediateRequest, subscriber_id, counters)
    }

    /// Forgets a session's cache; returns whether there was one.
    pub fn terminate_session(&mut self, session_id: &str) -> (r: bool)
        requires
            nested_wf(old(self).session_counter_cache),
        ensures
            nested_wf(final(self).session_counter_cache),
            r == old(self).session_counter_cache@.dom().contains(session_id@),
            final(self).session_counter_cache@ == old(self).session_counter_cache@.remove(session_id@),
    {
        let r = self.session_counter_cache.remove(session_id).is_some();
        assert forall|k: Seq<char>| #[trigger] self.session_counter_cache@.dom().contains(k) implies self.session_counter_cache@[
            k
        ].wf() by {
            assert(old(self).session_counter_cache@.dom().contains(k));
        }
        r
    }

    /// The number of sessions with a cache.
    pub fn active_session_count(&self) -> (r: usize)
        requires
            nested_wf(self.session_counter_cache),
        ensures
            r == self.session_counter_cache@.dom().len(),
    {
        proof {
            self.session_counter_cache.lemma_len();
        }
        self.session_counter_cache.len()
    }
}

/// A notification applied to the cache, then read back, gives the status it reported:
/// the last report of a counter wins.
pub proof fn lemma_notified_status_readable(m: Map<Seq<char>, Seq<char>>, rs: Seq<(Seq<char>, Seq<char>)>)
    requires
        rs.len() > 0,
    ensures
        apply_reports(m, rs).dom().contains(rs.last().0),
        apply_reports(m, rs)[rs.last().0] == rs.last().1,
{
}

} // verus!
