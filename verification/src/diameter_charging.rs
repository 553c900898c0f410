//! Diameter credit control (Gy/Ro): Credit-Control-Request messages with their
//! Multiple-Services-Credit-Control (MSCC) groups, and an online charging system that
//! reserves quota from subscriber balances and meters what was used.
use vstd::prelude::*;
use vstd::string::*;
use vstd::utf8::{decode_utf8, encode_utf8, valid_utf8};
use crate::diameter::{
    AvpModel, DiameterAvp, DiameterHeader, DiameterMessage, DIAMETER_SUCCESS, DIAMETER_FLAG_REQUEST,
    DIAMETER_FLAG_PROXIABLE, DIAMETER_VERSION_1, avp_models, avps_bytes, avps_parse, find_avp,
    mandatory_avp, parse_avps, serialize_avps,
};
use crate::wire::{be32_at, u32_bytes, u64_bytes, push_u64, read_u32};
use crate::text::{owned, string_from_utf8};
use crate::table::StrTable;

verus! {

pub const DIAMETER_APPLICATION_CREDIT_CONTROL: u32 = 4;
pub const DIAMETER_CMD_CREDIT_CONTROL: u32 = 272;
pub const AVP_CC_REQUEST_TYPE: u32 = 416;
pub const AVP_CC_REQUEST_NUMBER: u32 = 415;
pub const AVP_RATING_GROUP: u32 = 432;
pub const AVP_GRANTED_SERVICE_UNIT: u32 = 431;
pub const AVP_USED_SERVICE_UNIT: u32 = 446;
pub const AVP_CC_TOTAL_OCTETS: u32 = 421;
pub const AVP_CC_TIME: u32 = 420;
pub const AVP_MULTIPLE_SERVICES_CREDIT_CONTROL: u32 = 456;
pub const AVP_SUBSCRIPTION_ID: u32 = 443;
pub const AVP_SUBSCRIPTION_ID_DATA: u32 = 444;
pub const AVP_SESSION_ID: u32 = 263;
pub const AVP_RESULT_CODE: u32 = 268;
pub const DIAMETER_CREDIT_LIMIT_REACHED: u32 = 4012;
pub const DIAMETER_USER_UNKNOWN: u32 = 5030;

/// Quota granted to an answer's service unit, in seconds.
pub const GRANTED_TIME_SECONDS: u32 = 3600;

/// The smallest default grant an engine is configured with.
pub const MIN_DEFAULT_GRANT_OCTETS: u64 = 1024;

#[derive(Debug, Clone, Copy, PartialEq, Eq, Structural)]
pub enum CcRequestType {
    InitialRequest,
    UpdateRequest,
    TerminationRequest,
    EventRequest,
}

/// The CC-Request-Type value of a request type.
pub open spec fn cc_type_code(t: CcRequestType) -> u32 {
    match t {
        CcRequestType::InitialRequest => 1,
        CcRequestType::UpdateRequest => 2,
        CcRequestType::TerminationRequest => 3,
        CcRequestType::EventRequest => 4,
    }
}

/// The request type of a CC-Request-Type value, where it names one.
pub open spec fn cc_type_of(v: u32) -> Option<CcRequestType> {
    if v == 1 {
        Some(CcRequestType::InitialRequest)
    } else if v == 2 {
        Some(CcRequestType::UpdateRequest)
    } else if v == 3 {
        Some(CcRequestType::TerminationRequest)
    } else if v == 4 {
        Some(CcRequestType::EventRequest)
    } else {
        None
    }
}

impl CcRequestType {
    pub fn from_u32(val: u32) -> (r: Option<Self>)
        ensures
            r == cc_type_of(val),
    {
        match val {
            1 => Some(CcRequestType::InitialRequest),
            2 => Some(CcRequestType::UpdateRequest),
            3 => Some(CcRequestType::TerminationRequest),
            4 => Some(CcRequestType::EventRequest),
            _ => None,
        }
    }

    /// The CC-Request-Type value.
    pub fn as_u32(self) -> (r: u32)
        ensures
            r == cc_type_code(self),
    {
        match self {
            CcRequestType::InitialRequest => 1,
            CcRequestType::UpdateRequest => 2,
            CcRequestType::TerminationRequest => 3,
            CcRequestType::EventRequest => 4,
        }
    }
}

/// A request type read back from its value is the type written.
pub proof fn lemma_cc_type_roundtrip(t: CcRequestType)
    ensures
        cc_type_of(cc_type_code(t)) == Some(t),
{
}

/// A service unit: octets and seconds.
#[derive(Debug, Clone, Copy, PartialEq, Eq, Structural, Default)]
pub struct ServiceQuotaUnit {
    pub total_octets: u64,
    pub time_seconds: u32,
}

#[derive(Debug, Clone, Copy, PartialEq, Eq, Structural)]
pub struct MsccContainer {
    pub rating_group: u32,
    pub granted_units: Option<ServiceQuotaUnit>,
    pub used_units: Option<ServiceQuotaUnit>,
    pub result_code: u32,
}

/// The AVPs inside a service-unit AVP: the octets when non-zero, and the seconds when
/// non-zero and `with_time` (granted units carry time, used units do not).
pub open spec fn quota_avps(q: ServiceQuotaUnit, with_time: bool) -> Seq<AvpModel> {
    (if q.total_octets > 0 {
        seq![mandatory_avp(AVP_CC_TOTAL_OCTETS, u64_bytes(q.total_octets))]
    } else {
        Seq::empty()
    }) + (if with_time && q.time_seconds > 0 {
        seq![mandatory_avp(AVP_CC_TIME, u32_bytes(q.time_seconds))]
    } else {
        Seq::empty()
    })
}

/// The AVPs inside an MSCC AVP: rating group, result code, then the granted and used
/// service units that are present.
pub open spec fn mscc_inner_avps(m: MsccContainer) -> Seq<AvpModel> {
    seq![
        mandatory_avp(AVP_RATING_GROUP, u32_bytes(m.rating_group)),
        mandatory_avp(AVP_RESULT_CODE, u32_bytes(m.result_code)),
    ] + (match m.granted_units {
        Some(g) => seq![mandatory_avp(AVP_GRANTED_SERVICE_UNIT, avps_bytes(quota_avps(g, true)))],
        None => Seq::empty(),
    }) + (match m.used_units {
        Some(u) => seq![mandatory_avp(AVP_USED_SERVICE_UNIT, avps_bytes(quota_avps(u, false)))],
        None => Seq::empty(),
    })
}

/// The MSCC AVP of `m`.
pub open spec fn mscc_avp(m: MsccContainer) -> AvpModel {
    mandatory_avp(AVP_MULTIPLE_SERVICES_CREDIT_CONTROL, avps_bytes(mscc_inner_avps(m)))
}

/// The big-endian value of the first eight octets.
pub open spec fn be64_first(s: Seq<u8>) -> u64 {
    (be32_at(s, 0) * 0x1_0000_0000 + be32_at(s, 4)) as u64
}

/// The first four octets as a number, where there are four.
pub open spec fn u32_value(data: Seq<u8>) -> Option<u32> {
    if data.len() >= 4 { Some(be32_at(data, 0) as u32) } else { None }
}

/// A service unit read from its AVPs, the later of two alike AVPs winning: octets from a
/// CC-Total-Octets AVP of eight octets or more, seconds (where `with_time`) from a CC-Time
/// AVP, zero where short.
pub open spec fn quota_fold(avps: Seq<AvpModel>, with_time: bool) -> ServiceQuotaUnit
    decreases avps.len(),
{
    if avps.len() == 0 {
        ServiceQuotaUnit { total_octets: 0, time_seconds: 0 }
    } else {
        let q = quota_fold(avps.drop_last(), with_time);
        let a = avps.last();
        if a.code == AVP_CC_TOTAL_OCTETS && a.data.len() >= 8 {
            ServiceQuotaUnit { total_octets: be64_first(a.data), ..q }
        } else if with_time && a.code == AVP_CC_TIME {
            ServiceQuotaUnit {
                time_seconds: match u32_value(a.data) {
                    Some(v) => v,
                    None => 0,
                },
                ..q
            }
        } else {
            q
        }
    }
}

/// An MSCC read from its AVPs, the later of two alike AVPs winning; `None` when a rating
/// group or result code is shorter than four octets or a service unit is malformed.
pub open spec fn mscc_fold(avps: Seq<AvpModel>) -> Option<MsccContainer>
    decreases avps.len(),
{
    if avps.len() == 0 {
        Some(MsccContainer { rating_group: 0, granted_units: None, used_units: None, result_code: DIAMETER_SUCCESS })
    } else {
        match mscc_fold(avps.drop_last()) {
            None => None,
            Some(m) => {
                let a = avps.last();
                if a.code == AVP_RATING_GROUP {
                    match u32_value(a.data) {
                        Some(v) => Some(MsccContainer { rating_group: v, ..m }),
                        None => None,
                    }
                } else if a.code == AVP_RESULT_CODE {
                    match u32_value(a.data) {
                        Some(v) => Some(MsccContainer { result_code: v, ..m }),
                        None => None,
                    }
                } else if a.code == AVP_GRANTED_SERVICE_UNIT {
                    match avps_parse(a.data) {
                        Some(inner) => Some(MsccContainer { granted_units: Some(quota_fold(inner, true)), ..m }),
                        None => None,
                    }
                } else if a.code == AVP_USED_SERVICE_UNIT {
                    match avps_parse(a.data) {
                        Some(inner) => Some(MsccContainer { used_units: Some(quota_fold(inner, false)), ..m }),
                        None => None,
                    }
                } else {
                    Some(m)
                }
            },
        }
    }
}

/// Once a prefix of the AVPs fails to read, the whole fails.
proof fn lemma_mscc_fold_prefix_none(s: Seq<AvpModel>, i: int)
    requires
        0 <= i <= s.len(),
        mscc_fold(s.take(i)) is None,
    ensures
        mscc_fold(s) is None,
    decreases s.len() - i,
{
    if i < s.len() {
        assert(s.take(i + 1).drop_last() =~= s.take(i));
        lemma_mscc_fold_prefix_none(s, i + 1);
    } else {
        assert(s.take(i) =~= s);
    }
}

/// An MSCC read from the data of its AVP.
pub open spec fn mscc_parse(data: Seq<u8>) -> Option<MsccContainer> {
    match avps_parse(data) {
        Some(inner) => mscc_fold(inner),
        None => None,
    }
}

/// Reads a service unit from its AVPs.
fn read_quota(avps: &Vec<DiameterAvp>, with_time: bool) -> (r: ServiceQuotaUnit)
    ensures
        r == quota_fold(avp_models(avps@), with_time),
{
    let ghost models = avp_models(avps@);
    let mut q = ServiceQuotaUnit { total_octets: 0, time_seconds: 0 };
    let mut i: usize = 0;
    assert(models.take(0).len() == 0);
    while i < avps.len()
        invariant
            i <= avps@.len(),
            models == avp_models(avps@),
            q == quota_fold(models.take(i as int), with_time),
        decreases avps@.len() - i,
    {
        let a = &avps[i];
        assert(models.take(i + 1).drop_last() =~= models.take(i as int));
        assert(models.take(i + 1).last() == a@);
        if a.code == AVP_CC_TOTAL_OCTETS && a.data.len() >= 8 {
            let hi = read_u32(a.data.as_slice(), 0);
            let lo = read_u32(a.data.as_slice(), 4);
            q.total_octets = (hi as u64) * 0x1_0000_0000 + (lo as u64);
        } else if with_time && a.code == AVP_CC_TIME {
            q.time_seconds = match a.as_u32() {
                Some(v) => v,
                None => 0,
            };
        }
        i = i + 1;
    }
    assert(models.take(i as int) =~= models);
    q
}

/// The AVPs of a service unit.
fn quota_avp_list(q: ServiceQuotaUnit, with_time: bool) -> (r: Vec<DiameterAvp>)
    ensures
        avp_models(r@) == quota_avps(q, with_time),
{
    let mut v: Vec<DiameterAvp> = Vec::new();
    if q.total_octets > 0 {
        let mut data: Vec<u8> = Vec::new();
        push_u64(&mut data, q.total_octets);
        v.push(DiameterAvp::new(AVP_CC_TOTAL_OCTETS, data.as_slice()));
    }
    if with_time && q.time_seconds > 0 {
        v.push(DiameterAvp::new_u32(AVP_CC_TIME, q.time_seconds));
    }
    assert(avp_models(v@) =~= quota_avps(q, with_time));
    v
}

impl MsccContainer {
    pub fn new(rating_group: u32) -> (r: Self)
        ensures
            r == (MsccContainer { rating_group, granted_units: None, used_units: None, result_code: DIAMETER_SUCCESS }),
    {
        MsccContainer { rating_group, granted_units: None, used_units: None, result_code: DIAMETER_SUCCESS }
    }

    /// The MSCC as a grouped AVP.
    pub fn to_avp(&self) -> (r: DiameterAvp)
        ensures
            r@ == mscc_avp(*self),
    {
        let mut inner: Vec<DiameterAvp> = Vec::new();
        inner.push(DiameterAvp::new_u32(AVP_RATING_GROUP, self.rating_group));
        inner.push(DiameterAvp::new_u32(AVP_RESULT_CODE, self.result_code));
        match self.granted_units {
            Some(gsu) => {
                let l = quota_avp_list(gsu, true);
                let payload = serialize_avps(&l);
                inner.push(DiameterAvp::new(AVP_GRANTED_SERVICE_UNIT, payload.as_slice()));
            },
            None => {},
        }
        match self.used_units {
            Some(usu) => {
                let l = quota_avp_list(usu, false);
                let payload = serialize_avps(&l);
                inner.push(DiameterAvp::new(AVP_USED_SERVICE_UNIT, payload.as_slice()));
            },
            None => {},
        }
        assert(avp_models(inner@) =~= mscc_inner_avps(*self));
        let payload = serialize_avps(&inner);
        DiameterAvp::new(AVP_MULTIPLE_SERVICES_CREDIT_CONTROL, payload.as_slice())
    }

    /// Reads an MSCC from the data of its grouped AVP.
    pub fn parse_avp(avp: &DiameterAvp) -> (r: Option<Self>)
        ensures
            r == mscc_parse(avp.data@),
    {
        let list = match parse_avps(avp.data.as_slice()) {
            Some(l) => l,
            None => return None,
        };
        let ghost models = avp_models(list@);
        let mut m = MsccContainer { rating_group: 0, granted_units: None, used_units: None, result_code: DIAMETER_SUCCESS };
        let mut i: usize = 0;
        assert(models.take(0).len() == 0);
        while i < list.len()
            invariant
                i <= list@.len(),
                models == avp_models(list@),
                avps_parse(avp.data@) == Some(models),
                mscc_fold(models.take(i as int)) == Some(m),
            decreases list@.len() - i,
        {
            let a = &list[i];
            assert(models.take(i + 1).drop_last() =~= models.take(i as int));
            assert(models.take(i + 1).last() == a@);
            if a.code == AVP_RATING_GROUP {
                match a.as_u32() {
                    Some(v) => { m.rating_group = v; },
                    None => {
                        proof { lemma_mscc_fold_prefix_none(models, i + 1); }
                        return None;
                    },
                }
            } else if a.code == AVP_RESULT_CODE {
                match a.as_u32() {
                    Some(v) => { m.result_code = v; },
                    None => {
                        proof { lemma_mscc_fold_prefix_none(models, i + 1); }
                        return None;
                    },
                }
            } else if a.code == AVP_GRANTED_SERVICE_UNIT {
                match parse_avps(a.data.as_slice()) {
                    Some(inner) => { m.granted_units = Some(read_quota(&inner, true)); },
                    None => {
                        proof { lemma_mscc_fold_prefix_none(models, i + 1); }
                        return None;
                    },
                }
            } else if a.code == AVP_USED_SERVICE_UNIT {
                match parse_avps(a.data.as_slice()) {
                    Some(inner) => { m.used_units = Some(read_quota(&inner, false)); },
                    None => {
                        proof { lemma_mscc_fold_prefix_none(models, i + 1); }
                        return None;
                    },
                }
            }
            i = i + 1;
        }
        assert(models.take(i as int) =~= models);
        Some(m)
    }
}

/// The AVPs of a Credit-Control-Request: Session-Id, CC-Request-Type, CC-Request-Number,
/// Subscription-Id-Data, then one MSCC AVP per container.
pub open spec fn ccr_avps(
    session_id: Seq<char>,
    t: CcRequestType,
    number: u32,
    subscriber_id: Seq<char>,
    mscc: Seq<MsccContainer>,
) -> Seq<AvpModel> {
    seq![
        mandatory_avp(AVP_SESSION_ID, encode_utf8(session_id)),
        mandatory_avp(AVP_CC_REQUEST_TYPE, u32_bytes(cc_type_code(t))),
        mandatory_avp(AVP_CC_REQUEST_NUMBER, u32_bytes(number)),
        mandatory_avp(AVP_SUBSCRIPTION_ID_DATA, encode_utf8(subscriber_id)),
    ] + mscc.map_values(|m: MsccContainer| mscc_avp(m))
}

/// The header of a credit-control request.
pub open spec fn ccr_header(hop_by_hop_id: u32, end_to_end_id: u32) -> DiameterHeader {
    DiameterHeader {
        version: DIAMETER_VERSION_1,
        length: 0,
        flags: DIAMETER_FLAG_REQUEST | DIAMETER_FLAG_PROXIABLE,
        command_code: DIAMETER_CMD_CREDIT_CONTROL,
        application_id: DIAMETER_APPLICATION_CREDIT_CONTROL,
        hop_by_hop_id,
        end_to_end_id,
    }
}

/// The MSCCs of a message: those of its MSCC AVPs that read, in order.
pub open spec fn msccs_of(avps: Seq<AvpModel>) -> Seq<MsccContainer>
    decreases avps.len(),
{
    if avps.len() == 0 {
        Seq::empty()
    } else {
        let rest = msccs_of(avps.drop_last());
        let a = avps.last();
        if a.code == AVP_MULTIPLE_SERVICES_CREDIT_CONTROL {
            match mscc_parse(a.data) {
                Some(m) => rest.push(m),
                None => rest,
            }
        } else {
            rest
        }
    }
}

/// The UTF-8 text of the first AVP with `code`, where it is present and well-formed.
pub open spec fn text_avp(avps: Seq<AvpModel>, code: u32) -> Option<Seq<char>> {
    match find_avp(avps, code) {
        Some(a) => if valid_utf8(a.data) { Some(decode_utf8(a.data)) } else { None },
        None => None,
    }
}

/// The number in the first AVP with `code`, where it is present and four octets long at least.
pub open spec fn u32_avp(avps: Seq<AvpModel>, code: u32) -> Option<u32> {
    match find_avp(avps, code) {
        Some(a) => u32_value(a.data),
        None => None,
    }
}

/// Whether a message reads as a credit-control request: the command with the R bit, a
/// Session-Id in UTF-8, a known CC-Request-Type and a CC-Request-Number.
pub open spec fn ccr_readable(m: crate::diameter::MessageModel) -> bool {
    &&& m.header.command_code == DIAMETER_CMD_CREDIT_CONTROL
    &&& m.header.flags & DIAMETER_FLAG_REQUEST != 0
    &&& text_avp(m.avps, AVP_SESSION_ID) is Some
    &&& u32_avp(m.avps, AVP_CC_REQUEST_TYPE) matches Some(v) && cc_type_of(v) is Some
    &&& u32_avp(m.avps, AVP_CC_REQUEST_NUMBER) is Some
}

#[derive(Debug, Clone, PartialEq, Eq)]
pub struct CreditControlRequest {
    pub session_id: String,
    pub request_type: CcRequestType,
    pub request_number: u32,
    pub subscriber_id: String,
    pub mscc: Vec<MsccContainer>,
}

impl CreditControlRequest {
    pub fn new(session_id: &str, request_type: CcRequestType, request_number: u32, subscriber_id: &str) -> (r: Self)
        ensures
            r.session_id@ == session_id@,
            r.request_type == request_type,
            r.request_number == request_number,
            r.subscriber_id@ == subscriber_id@,
            r.mscc@.len() == 0,
    {
        CreditControlRequest {
            session_id: owned(session_id),
            request_type,
            request_number,
            subscriber_id: owned(subscriber_id),
            mscc: Vec::new(),
        }
    }

    pub fn to_diameter_message(&self, hop_by_hop_id: u32, end_to_end_id: u32) -> (r: DiameterMessage)
        ensures
            r.header == ccr_header(hop_by_hop_id, end_to_end_id),
            r@.avps == ccr_avps(self.session_id@, self.request_type, self.request_number, self.subscriber_id@, self.mscc@),
    {
        let mut msg = DiameterMessage::new_request(
            DIAMETER_CMD_CREDIT_CONTROL,
            DIAMETER_APPLICATION_CREDIT_CONTROL,
            hop_by_hop_id,
            end_to_end_id,
        );
        msg.add_avp(DiameterAvp::new_string(AVP_SESSION_ID, self.session_id.as_str()));
        msg.add_avp(DiameterAvp::new_u32(AVP_CC_REQUEST_TYPE, self.request_type.as_u32()));
        msg.add_avp(DiameterAvp::new_u32(AVP_CC_REQUEST_NUMBER, self.request_number));
        msg.add_avp(DiameterAvp::new_string(AVP_SUBSCRIPTION_ID_DATA, self.subscriber_id.as_str()));
        let ghost head = msg@.avps;
        let mut i: usize = 0;
        while i < self.mscc.len()
            invariant
                i <= self.mscc@.len(),
                msg.header == ccr_header(hop_by_hop_id, end_to_end_id),
                msg@.avps == head + self.mscc@.take(i as int).map_values(|m: MsccContainer| mscc_avp(m)),
            decreases self.mscc@.len() - i,
        {
            let a = self.mscc[i].to_avp();
            msg.add_avp(a);
            i = i + 1;
            assert(self.mscc@.take(i as int).map_values(|m: MsccContainer| mscc_avp(m)) =~= self.mscc@.take(
                i - 1,
            ).map_values(|m: MsccContainer| mscc_avp(m)).push(mscc_avp(self.mscc@[i - 1])));
        }
        assert(self.mscc@.take(i as int) =~= self.mscc@);
        assert(msg@.avps =~= ccr_avps(self.session_id@, self.request_type, self.request_number, self.subscriber_id@, self.mscc@));
        msg
    }

    /// Reads a credit-control request; `None` unless the message is one (see
    /// `ccr_readable`). A missing or ill-formed Subscription-Id-Data reads as "unknown",
    /// and MSCC AVPs that do not read are left out.
    pub fn from_diameter_message(msg: &DiameterMessage) -> (r: Option<Self>)
        ensures
            match r {
                None => !ccr_readable(msg@),
                Some(c) => {
                    &&& ccr_readable(msg@)
                    &&& Some(c.session_id@) == text_avp(msg@.avps, AVP_SESSION_ID)
                    &&& Some(c.request_type) == cc_type_of(u32_avp(msg@.avps, AVP_CC_REQUEST_TYPE)->0)
                    &&& Some(c.request_number) == u32_avp(msg@.avps, AVP_CC_REQUEST_NUMBER)
                    &&& c.subscriber_id@ == (match text_avp(msg@.avps, AVP_SUBSCRIPTION_ID_DATA) {
                        Some(t) => t,
                        None => "unknown"@,
                    })
                    &&& c.mscc@ == msccs_of(msg@.avps)
                },
            },
    {
        if msg.header.command_code != DIAMETER_CMD_CREDIT_CONTROL || !msg.header.is_request() {
            return None;
        }
        let session_id = match msg.get_avp(AVP_SESSION_ID) {
            Some(a) => match a.as_string() {
                Some(s) => s,
                None => return None,
            },
            None => return None,
        };
        let req_type_u32 = match msg.get_avp(AVP_CC_REQUEST_TYPE) {
            Some(a) => match a.as_u32() {
                Some(v) => v,
                None => return None,
            },
            None => return None,
        };
        let request_type = match CcRequestType::from_u32(req_type_u32) {
            Some(t) => t,
            None => return None,
        };
        let request_number = match msg.get_avp(AVP_CC_REQUEST_NUMBER) {
            Some(a) => match a.as_u32() {
                Some(v) => v,
                None => return None,
            },
            None => return None,
        };
        proof {
            reveal_strlit("unknown");
        }
        let subscriber_id = match msg.get_avp(AVP_SUBSCRIPTION_ID_DATA) {
            Some(a) => match a.as_string() {
                Some(s) => s,
                None => owned("unknown"),
            },
            None => owned("unknown"),
        };
        let ghost models = msg@.avps;
        let mut mscc_list: Vec<MsccContainer> = Vec::new();
        let mut i: usize = 0;
        assert(models.take(0).len() == 0);
        while i < msg.avps.len()
            invariant
                i <= msg.avps@.len(),
                models == msg@.avps,
                models == avp_models(msg.avps@),
                mscc_list@ == msccs_of(models.take(i as int)),
            decreases msg.avps@.len() - i,
        {
            let avp = &msg.avps[i];
            assert(models.take(i + 1).drop_last() =~= models.take(i as int));
            assert(models.take(i + 1).last() == avp@);
            if avp.code == AVP_MULTIPLE_SERVICES_CREDIT_CONTROL {
                match MsccContainer::parse_avp(avp) {
                    Some(m) => mscc_list.push(m),
                    None => {},
                }
            }
            i = i + 1;
        }
        assert(models.take(i as int) =~= models);
        Some(CreditControlRequest { session_id, request_type, request_number, subscriber_id, mscc: mscc_list })
    }
}

/// What a service unit reads back as: the time is carried for granted units only.
pub open spec fn quota_carried(q: ServiceQuotaUnit, with_time: bool) -> ServiceQuotaUnit {
    if with_time { q } else { ServiceQuotaUnit { time_seconds: 0, ..q } }
}

/// What an MSCC reads back as: the used units lose their time.
pub open spec fn mscc_carried(m: MsccContainer) -> MsccContainer {
    MsccContainer {
        used_units: match m.used_units {
            Some(u) => Some(quota_carried(u, false)),
            None => None,
        },
        ..m
    }
}

proof fn lemma_mandatory_wf(code: u32, data: Seq<u8>)
    requires
        8 + data.len() < 0x100_0000,
    ensures
        crate::diameter::avp_wf(mandatory_avp(code, data)),
{
    assert(0x40u8 & 0x80u8 == 0) by (bit_vector);
}

proof fn lemma_u64_value(v: u64)
    ensures
        u64_bytes(v).len() == 8,
        be64_first(u64_bytes(v)) == v,
{
    let hi = (v / 0x1_0000_0000) as u32;
    let lo = (v % 0x1_0000_0000) as u32;
    crate::wire::lemma_u32_roundtrip(hi);
    crate::wire::lemma_u32_roundtrip(lo);
    let b = u64_bytes(v);
    assert(b.subrange(0, 4) =~= u32_bytes(hi));
    assert(b.subrange(4, 8) =~= u32_bytes(lo));
    assert(be32_at(b, 0) == be32_at(u32_bytes(hi), 0));
    assert(be32_at(b, 4) == be32_at(u32_bytes(lo), 0));
}

proof fn lemma_mandatory_len(code: u32, data: Seq<u8>)
    ensures
        crate::diameter::avp_bytes(mandatory_avp(code, data)).len() == 8 + data.len() + crate::diameter::pad4(
            8 + data.len() as int,
        ),
{
    reveal(crate::diameter::avp_bytes);
}

proof fn lemma_quota_bytes(q: ServiceQuotaUnit, with_time: bool)
    ensures
        avps_bytes(quota_avps(q, with_time)).len() <= 32,
{
    let l = quota_avps(q, with_time);
    reveal_with_fuel(avps_bytes, 3);
    lemma_mandatory_len(AVP_CC_TOTAL_OCTETS, u64_bytes(q.total_octets));
    lemma_mandatory_len(AVP_CC_TIME, u32_bytes(q.time_seconds));
    if l.len() == 1 {
        assert(l.skip(1).len() == 0);
    } else if l.len() == 2 {
        assert(l.skip(1).skip(1).len() == 0);
        assert(l.skip(1)[0] == l[1]);
    }
}

proof fn lemma_quota_roundtrip(q: ServiceQuotaUnit, with_time: bool)
    ensures
        avps_parse(avps_bytes(quota_avps(q, with_time))) == Some(quota_avps(q, with_time)),
        quota_fold(quota_avps(q, with_time), with_time) == quota_carried(q, with_time),
        avps_bytes(quota_avps(q, with_time)).len() <= 32,
{
    let l = quota_avps(q, with_time);
    lemma_quota_bytes(q, with_time);
    lemma_u64_value(q.total_octets);
    crate::wire::lemma_u32_roundtrip(q.time_seconds);
    lemma_mandatory_wf(AVP_CC_TOTAL_OCTETS, u64_bytes(q.total_octets));
    lemma_mandatory_wf(AVP_CC_TIME, u32_bytes(q.time_seconds));
    assert forall|i: int| 0 <= i < l.len() implies crate::diameter::avp_wf(#[trigger] l[i]) by {}
    crate::diameter::lemma_avps_roundtrip(l);
    let zero = ServiceQuotaUnit { total_octets: 0, time_seconds: 0 };
    let has_octets = q.total_octets > 0;
    let has_time = with_time && q.time_seconds > 0;
    if !has_octets && !has_time {
        assert(l.len() == 0);
    } else if has_octets && !has_time {
        assert(l.len() == 1);
        assert(l.drop_last().len() == 0);
        assert(quota_fold(l.drop_last(), with_time) == zero);
    } else if !has_octets && has_time {
        assert(l.len() == 1);
        assert(l.drop_last().len() == 0);
        assert(quota_fold(l.drop_last(), with_time) == zero);
    } else {
        assert(l.len() == 2);
        assert(l.drop_last().drop_last().len() == 0);
        assert(quota_fold(l.drop_last().drop_last(), with_time) == zero);
        assert(l.drop_last().last() == l[0]);
        assert(quota_fold(l.drop_last(), with_time) == ServiceQuotaUnit { total_octets: q.total_octets, ..zero });
    }
}

proof fn lemma_mscc_inner_parse(m: MsccContainer)
    ensures
        avps_parse(avps_bytes(mscc_inner_avps(m))) == Some(mscc_inner_avps(m)),
{
    let l = mscc_inner_avps(m);
    lemma_mandatory_wf(AVP_RATING_GROUP, u32_bytes(m.rating_group));
    lemma_mandatory_wf(AVP_RESULT_CODE, u32_bytes(m.result_code));
    match m.granted_units {
        Some(g) => {
            lemma_quota_bytes(g, true);
            lemma_mandatory_wf(AVP_GRANTED_SERVICE_UNIT, avps_bytes(quota_avps(g, true)));
        },
        None => {},
    }
    match m.used_units {
        Some(u) => {
            lemma_quota_bytes(u, false);
            lemma_mandatory_wf(AVP_USED_SERVICE_UNIT, avps_bytes(quota_avps(u, false)));
        },
        None => {},
    }
    assert forall|i: int| 0 <= i < l.len() implies crate::diameter::avp_wf(#[trigger] l[i]) by {}
    crate::diameter::lemma_avps_roundtrip(l);
}

proof fn lemma_mscc_head_fold(m: MsccContainer)
    ensures
        mscc_fold(mscc_inner_avps(m).take(2)) == Some(
            MsccContainer { rating_group: m.rating_group, granted_units: None, used_units: None, result_code: m.result_code },
        ),
{
    let p2 = mscc_inner_avps(m).take(2);
    let start = MsccContainer { rating_group: 0, granted_units: None, used_units: None, result_code: DIAMETER_SUCCESS };
    crate::wire::lemma_u32_roundtrip(m.rating_group);
    crate::wire::lemma_u32_roundtrip(m.result_code);
    assert(p2.drop_last().drop_last().len() == 0);
    assert(mscc_fold(p2.drop_last().drop_last()) == Some(start));
    assert(p2.drop_last().last() == mandatory_avp(AVP_RATING_GROUP, u32_bytes(m.rating_group)));
    assert(p2.last() == mandatory_avp(AVP_RESULT_CODE, u32_bytes(m.result_code)));
    assert(mscc_fold(p2.drop_last()) == Some(MsccContainer { rating_group: m.rating_group, ..start }));
}

proof fn lemma_mscc_step(prefix: Seq<AvpModel>, a: AvpModel, before: MsccContainer)
    requires
        mscc_fold(prefix) == Some(before),
    ensures
        mscc_fold(prefix.push(a)) == (if a.code == AVP_GRANTED_SERVICE_UNIT {
            match avps_parse(a.data) {
                Some(inner) => Some(MsccContainer { granted_units: Some(quota_fold(inner, true)), ..before }),
                None => None,
            }
        } else if a.code == AVP_USED_SERVICE_UNIT {
            match avps_parse(a.data) {
                Some(inner) => Some(MsccContainer { used_units: Some(quota_fold(inner, false)), ..before }),
                None => None,
            }
        } else {
            mscc_fold(prefix.push(a))
        }),
{
    assert(prefix.push(a).drop_last() =~= prefix);
}

/// An MSCC reads back from the data of its own AVP, its used units without their time
/// (which the AVP does not carry).
#[verifier::rlimit(50)]
pub proof fn lemma_mscc_roundtrip(m: MsccContainer)
    ensures
        mscc_parse(avps_bytes(mscc_inner_avps(m))) == Some(mscc_carried(m)),
{
    let l = mscc_inner_avps(m);
    lemma_mscc_inner_parse(m);
    lemma_mscc_head_fold(m);
    let p2 = l.take(2);
    let head = MsccContainer { rating_group: m.rating_group, granted_units: None, used_units: None, result_code: m.result_code };
    match m.granted_units {
        Some(g) => {
            lemma_quota_roundtrip(g, true);
            let ga = mandatory_avp(AVP_GRANTED_SERVICE_UNIT, avps_bytes(quota_avps(g, true)));
            assert(l[2] == ga);
            assert(p2.push(ga) =~= l.take(3));
            lemma_mscc_step(p2, ga, head);
            let h3 = MsccContainer { granted_units: Some(g), ..head };
            assert(mscc_fold(l.take(3)) == Some(h3));
            match m.used_units {
                Some(u) => {
                    lemma_quota_roundtrip(u, false);
                    let ua = mandatory_avp(AVP_USED_SERVICE_UNIT, avps_bytes(quota_avps(u, false)));
                    assert(l.take(3).push(ua) =~= l);
                    lemma_mscc_step(l.take(3), ua, h3);
                },
                None => {
                    assert(l.take(3) =~= l);
                },
            }
        },
        None => {
            match m.used_units {
                Some(u) => {
                    lemma_quota_roundtrip(u, false);
                    let ua = mandatory_avp(AVP_USED_SERVICE_UNIT, avps_bytes(quota_avps(u, false)));
                    assert(p2.push(ua) =~= l);
                    lemma_mscc_step(p2, ua, head);
                },
                None => {
                    assert(p2 =~= l);
                },
            }
        },
    }
}

// ---------------------------------------------------------------------------
// Online charging
// ---------------------------------------------------------------------------

#[derive(Debug, Clone, PartialEq, Eq)]
pub struct SubscriberAccount {
    pub subscriber_id: String,
    pub total_balance_octets: u64,
    pub granted_reserved_octets: u64,
    pub consumed_octets: u64,
    pub active_session: Option<String>,
}

/// The balance not yet reserved.
pub open spec fn avail(total: u64, reserved: u64) -> int {
    if total > reserved { total - reserved } else { 0 }
}

/// The grant for one service: what is available, at most `quota`.
pub open spec fn grant_for(total: u64, reserved: u64, quota: u64) -> u64 {
    let a = avail(total, reserved);
    (if a < quota { a } else { quota as int }) as u64
}

/// The reservation after granting to `n` services in turn.
pub open spec fn reserved_after(total: u64, reserved: u64, quota: u64, n: nat) -> u64
    decreases n,
{
    if n == 0 {
        reserved
    } else {
        let r = reserved_after(total, reserved, quota, (n - 1) as nat);
        if avail(total, r) > 0 { (r + grant_for(total, r, quota)) as u64 } else { r }
    }
}

/// The answer MSCC for rating group `rg` with reservation `r`: a grant, valid for an
/// hour, while balance is available, else credit limit reached.
pub open spec fn answer_mscc(rg: u32, total: u64, r: u64, quota: u64) -> MsccContainer {
    if avail(total, r) > 0 {
        MsccContainer {
            rating_group: rg,
            granted_units: Some(
                ServiceQuotaUnit { total_octets: grant_for(total, r, quota), time_seconds: GRANTED_TIME_SECONDS },
            ),
            used_units: None,
            result_code: DIAMETER_SUCCESS,
        }
    } else {
        MsccContainer { rating_group: rg, granted_units: None, used_units: None, result_code: DIAMETER_CREDIT_LIMIT_REACHED }
    }
}

/// The answers to the requested services, granted in order.
pub open spec fn grant_answers(total: u64, reserved: u64, quota: u64, reqs: Seq<MsccContainer>) -> Seq<MsccContainer> {
    Seq::new(
        reqs.len(),
        |i: int| answer_mscc(reqs[i].rating_group, total, reserved_after(total, reserved, quota, i as nat), quota),
    )
}

/// `a - b`, or zero.
pub open spec fn sat_sub(a: u64, b: u64) -> u64 {
    if a > b { (a - b) as u64 } else { 0 }
}

/// Balance, reservation and total used after the reported usage of `reqs` is charged in
/// turn, each used amount taken from balance and reservation (not below zero).
pub open spec fn usage(total: u64, reserved: u64, reqs: Seq<MsccContainer>) -> (u64, u64, int)
    decreases reqs.len(),
{
    if reqs.len() == 0 {
        (total, reserved, 0)
    } else {
        let (t, r, c) = usage(total, reserved, reqs.drop_last());
        match reqs.last().used_units {
            Some(u) => (sat_sub(t, u.total_octets), sat_sub(r, u.total_octets), c + u.total_octets),
            None => (t, r, c),
        }
    }
}

proof fn lemma_usage_mono(total: u64, reserved: u64, reqs: Seq<MsccContainer>, i: int)
    requires
        0 <= i <= reqs.len(),
    ensures
        0 <= usage(total, reserved, reqs.take(i)).2 <= usage(total, reserved, reqs).2,
    decreases reqs.len() - i,
{
    if i < reqs.len() {
        lemma_usage_mono(total, reserved, reqs, i + 1);
        assert(reqs.take(i + 1).drop_last() =~= reqs.take(i));
    } else {
        assert(reqs.take(i) =~= reqs);
    }
    lemma_usage_nonneg(total, reserved, reqs.take(i));
}

proof fn lemma_usage_nonneg(total: u64, reserved: u64, reqs: Seq<MsccContainer>)
    ensures
        usage(total, reserved, reqs).2 >= 0,
    decreases reqs.len(),
{
    if reqs.len() > 0 {
        lemma_usage_nonneg(total, reserved, reqs.drop_last());
    }
}

/// The header of a credit-control answer.
pub open spec fn cca_header() -> DiameterHeader {
    DiameterHeader {
        version: DIAMETER_VERSION_1,
        length: 0,
        flags: DIAMETER_FLAG_PROXIABLE,
        command_code: DIAMETER_CMD_CREDIT_CONTROL,
        application_id: DIAMETER_APPLICATION_CREDIT_CONTROL,
        hop_by_hop_id: 1,
        end_to_end_id: 1,
    }
}

/// The AVPs that open every answer: Session-Id, CC-Request-Type, CC-Request-Number.
pub open spec fn cca_head(ccr: CreditControlRequest) -> Seq<AvpModel> {
    seq![
        mandatory_avp(AVP_SESSION_ID, encode_utf8(ccr.session_id@)),
        mandatory_avp(AVP_CC_REQUEST_TYPE, u32_bytes(cc_type_code(ccr.request_type))),
        mandatory_avp(AVP_CC_REQUEST_NUMBER, u32_bytes(ccr.request_number)),
    ]
}

/// A Result-Code AVP.
pub open spec fn result_avp(code: u32) -> AvpModel {
    mandatory_avp(AVP_RESULT_CODE, u32_bytes(code))
}

/// Grants to each requested service in turn, raising the account's reservation.
fn grant_all(acc: &mut SubscriberAccount, reqs: &Vec<MsccContainer>, quota: u64) -> (r: Vec<MsccContainer>)
    ensures
        *final(acc) == (SubscriberAccount {
            granted_reserved_octets: reserved_after(
                old(acc).total_balance_octets,
                old(acc).granted_reserved_octets,
                quota,
                reqs@.len(),
            ),
            ..*old(acc)
        }),
        r@ == grant_answers(old(acc).total_balance_octets, old(acc).granted_reserved_octets, quota, reqs@),
{
    let ghost total = acc.total_balance_octets;
    let ghost r0 = acc.granted_reserved_octets;
    let ghost start = *acc;
    let mut out: Vec<MsccContainer> = Vec::new();
    let mut i: usize = 0;
    while i < reqs.len()
        invariant
            i <= reqs@.len(),
            total == start.total_balance_octets,
            r0 == start.granted_reserved_octets,
            *acc == (SubscriberAccount {
                granted_reserved_octets: reserved_after(total, r0, quota, i as nat),
                ..start
            }),
            out@.len() == i,
            forall|j: int| 0 <= j < i ==> #[trigger] out@[j] == answer_mscc(
                reqs@[j].rating_group,
                total,
                reserved_after(total, r0, quota, j as nat),
                quota,
            ),
        decreases reqs@.len() - i,
    {
        let mut ans = MsccContainer::new(reqs[i].rating_group);
        let available: u64 = if acc.total_balance_octets > acc.granted_reserved_octets {
            acc.total_balance_octets - acc.granted_reserved_octets
        } else {
            0
        };
        if available > 0 {
            let grant: u64 = if available < quota { available } else { quota };
            acc.granted_reserved_octets = acc.granted_reserved_octets + grant;
            ans.granted_units = Some(ServiceQuotaUnit { total_octets: grant, time_seconds: GRANTED_TIME_SECONDS });
            ans.result_code = DIAMETER_SUCCESS;
        } else {
            ans.result_code = DIAMETER_CREDIT_LIMIT_REACHED;
        }
        out.push(ans);
        i = i + 1;
    }
    assert(out@ =~= grant_answers(total, r0, quota, reqs@));
    out
}

/// Charges the reported usage of each service to the account.
fn charge_usage(acc: &mut SubscriberAccount, reqs: &Vec<MsccContainer>)
    requires
        old(acc).consumed_octets + usage(old(acc).total_balance_octets, old(acc).granted_reserved_octets, reqs@).2
            <= u64::MAX,
    ensures
        ({
            let (t, r, c) = usage(old(acc).total_balance_octets, old(acc).granted_reserved_octets, reqs@);
            *final(acc) == (SubscriberAccount {
                total_balance_octets: t,
                granted_reserved_octets: r,
                consumed_octets: (old(acc).consumed_octets + c) as u64,
                ..*old(acc)
            })
        }),
{
    let ghost start = *acc;
    let mut i: usize = 0;
    assert(reqs@.take(0).len() == 0);
    while i < reqs.len()
        invariant
            i <= reqs@.len(),
            start.consumed_octets + usage(start.total_balance_octets, start.granted_reserved_octets, reqs@).2
                <= u64::MAX,
            ({
                let (t, r, c) = usage(start.total_balance_octets, start.granted_reserved_octets, reqs@.take(i as int));
                *acc == (SubscriberAccount {
                    total_balance_octets: t,
                    granted_reserved_octets: r,
                    consumed_octets: (start.consumed_octets + c) as u64,
                    ..start
                }) && start.consumed_octets + c <= u64::MAX
            }),
        decreases reqs@.len() - i,
    {
        proof {
            lemma_usage_mono(start.total_balance_octets, start.granted_reserved_octets, reqs@, i + 1);
            lemma_usage_nonneg(start.total_balance_octets, start.granted_reserved_octets, reqs@.take(i as int));
            assert(reqs@.take(i + 1).drop_last() =~= reqs@.take(i as int));
            assert(reqs@.take(i + 1).last() == reqs@[i as int]);
        }
        match reqs[i].used_units {
            Some(used) => {
                let used_octets = used.total_octets;
                acc.consumed_octets = acc.consumed_octets + used_octets;
                acc.total_balance_octets = if acc.total_balance_octets > used_octets {
                    acc.total_balance_octets - used_octets
                } else {
                    0
                };
                acc.granted_reserved_octets = if acc.granted_reserved_octets > used_octets {
                    acc.granted_reserved_octets - used_octets
                } else {
                    0
                };
            },
            None => {},
        }
        i = i + 1;
    }
    assert(reqs@.take(i as int) =~= reqs@);
}

#[derive(Debug, Clone)]
pub struct OnlineChargingEngine {
    pub accounts: StrTable<SubscriberAccount>,
    pub default_grant_quota_octets: u64,
}

impl OnlineChargingEngine {
    /// An engine with no accounts; the default grant is at least 1024 octets.
    pub fn new(default_grant_quota_octets: u64) -> (r: Self)
        ensures
            r.accounts.wf(),
            r.accounts@ == Map::<Seq<char>, SubscriberAccount>::empty(),
            r.default_grant_quota_octets == (if default_grant_quota_octets > MIN_DEFAULT_GRANT_OCTETS {
                default_grant_quota_octets
            } else {
                MIN_DEFAULT_GRANT_OCTETS
            }),
    {
        OnlineChargingEngine {
            accounts: StrTable::new(),
            default_grant_quota_octets: if default_grant_quota_octets > MIN_DEFAULT_GRANT_OCTETS {
                default_grant_quota_octets
            } else {
                MIN_DEFAULT_GRANT_OCTETS
            },
        }
    }

    /// Adds `balance_octets` to the subscriber's balance, opening the account if needed.
    pub fn provision_subscriber(&mut self, subscriber_id: &str, balance_octets: u64)
        requires
            old(self).accounts.wf(),
            old(self).accounts@.dom().contains(subscriber_id@) ==> old(self).accounts@[subscriber_id@].total_balance_octets
                + balance_octets <= u64::MAX,
        ensures
            final(self).accounts.wf(),
            final(self).default_grant_quota_octets == old(self).default_grant_quota_octets,
            if old(self).accounts@.dom().contains(subscriber_id@) {
                let a = old(self).accounts@[subscriber_id@];
                final(self).accounts@ == old(self).accounts@.insert(
                    subscriber_id@,
                    SubscriberAccount { total_balance_octets: (a.total_balance_octets + balance_octets) as u64, ..a },
                )
            } else {
                &&& final(self).accounts@.dom() == old(self).accounts@.dom().insert(subscriber_id@)
                &&& forall|k: Seq<char>| k != subscriber_id@ && #[trigger] old(self).accounts@.dom().contains(k)
                    ==> final(self).accounts@[k] == old(self).accounts@[k]
                &&& final(self).accounts@[subscriber_id@].subscriber_id@ == subscriber_id@
                &&& final(self).accounts@[subscriber_id@].total_balance_octets == balance_octets
                &&& final(self).accounts@[subscriber_id@].granted_reserved_octets == 0
                &&& final(self).accounts@[subscriber_id@].consumed_octets == 0
                &&& final(self).accounts@[subscriber_id@].active_session is None
            },
    {
        match self.accounts.remove(subscriber_id) {
            Some(mut acc) => {
                acc.total_balance_octets = acc.total_balance_octets + balance_octets;
                self.accounts.insert(owned(subscriber_id), acc);
                proof {
                    assert(self.accounts@ =~= old(self).accounts@.insert(
                        subscriber_id@,
                        SubscriberAccount {
                            total_balance_octets: (old(self).accounts@[subscriber_id@].total_balance_octets
                                + balance_octets) as u64,
                            ..old(self).accounts@[subscriber_id@]
                        },
                    ));
                }
            },
            None => {
                let acc = SubscriberAccount {
                    subscriber_id: owned(subscriber_id),
                    total_balance_octets: balance_octets,
                    granted_reserved_octets: 0,
                    consumed_octets: 0,
                    active_session: None,
                };
                self.accounts.insert(owned(subscriber_id), acc);
                assert(self.accounts@.dom() =~= old(self).accounts@.dom().insert(subscriber_id@));
            },
        }
    }

    /// Answers a credit-control request against the subscriber's account. An initial
    /// request opens the session and grants quota per service; an update first charges
    /// the reported usage, then grants again; a termination charges the usage and
    /// releases the reservation; an event only answers. An unknown subscriber is answered
    /// with DIAMETER_USER_UNKNOWN and nothing changes.
    pub fn process_ccr(&mut self, ccr: &CreditControlRequest) -> (r: DiameterMessage)
        requires
            old(self).accounts.wf(),
            ({
                let k = ccr.subscriber_id@;
                let acc = old(self).accounts@[k];
                old(self).accounts@.dom().contains(k) && (ccr.request_type == CcRequestType::UpdateRequest
                    || ccr.request_type == CcRequestType::TerminationRequest) ==> acc.consumed_octets + usage(
                    acc.total_balance_octets,
                    acc.granted_reserved_octets,
                    ccr.mscc@,
                ).2 <= u64::MAX
            }),
        ensures
            final(self).accounts.wf(),
            final(self).default_grant_quota_octets == old(self).default_grant_quota_octets,
            r.header == cca_header(),
            ({
                let k = ccr.subscriber_id@;
                let q = old(self).default_grant_quota_octets;
                let n = ccr.mscc@.len();
                if !old(self).accounts@.dom().contains(k) {
                    &&& r@.avps == cca_head(*ccr).push(result_avp(DIAMETER_USER_UNKNOWN))
                    &&& final(self).accounts@ == old(self).accounts@
                } else {
                    let acc = old(self).accounts@[k];
                    let new_acc = final(self).accounts@[k];
                    let (t, rv, used) = usage(acc.total_balance_octets, acc.granted_reserved_octets, ccr.mscc@);
                    &&& final(self).accounts@.dom() == old(self).accounts@.dom()
                    &&& forall|k2: Seq<char>| k2 != k && #[trigger] old(self).accounts@.dom().contains(k2)
                        ==> final(self).accounts@[k2] == old(self).accounts@[k2]
                    &&& match ccr.request_type {
                        CcRequestType::InitialRequest => {
                            &&& new_acc.subscriber_id == acc.subscriber_id
                            &&& new_acc.total_balance_octets == acc.total_balance_octets
                            &&& new_acc.consumed_octets == acc.consumed_octets
                            &&& new_acc.granted_reserved_octets == reserved_after(
                                acc.total_balance_octets,
                                acc.granted_reserved_octets,
                                q,
                                n,
                            )
                            &&& new_acc.active_session matches Some(s) && s@ == ccr.session_id@
                            &&& r@.avps == cca_head(*ccr).push(result_avp(DIAMETER_SUCCESS)) + grant_answers(
                                acc.total_balance_octets,
                                acc.granted_reserved_octets,
                                q,
                                ccr.mscc@,
                            ).map_values(|m: MsccContainer| mscc_avp(m))
                        },
                        CcRequestType::UpdateRequest => {
                            &&& new_acc == SubscriberAccount {
                                total_balance_octets: t,
                                granted_reserved_octets: reserved_after(t, rv, q, n),
                                consumed_octets: (acc.consumed_octets + used) as u64,
                                ..acc
                            }
                            &&& r@.avps == cca_head(*ccr).push(result_avp(DIAMETER_SUCCESS)) + grant_answers(
                                t,
                                rv,
                                q,
                                ccr.mscc@,
                            ).map_values(|m: MsccContainer| mscc_avp(m))
                        },
                        CcRequestType::TerminationRequest => {
                            &&& new_acc.subscriber_id == acc.subscriber_id
                            &&& new_acc.total_balance_octets == t
                            &&& new_acc.consumed_octets == acc.consumed_octets + used
                            &&& new_acc.granted_reserved_octets == 0
                            &&& new_acc.active_session is None
                            &&& r@.avps == cca_head(*ccr).push(result_avp(DIAMETER_SUCCESS))
                        },
                        CcRequestType::EventRequest => {
                            &&& new_acc == acc
                            &&& r@.avps == cca_head(*ccr).push(result_avp(DIAMETER_SUCCESS))
                        },
                    }
                }
            }),
    {
        let mut resp = DiameterMessage::new_answer(
            DIAMETER_CMD_CREDIT_CONTROL,
            DIAMETER_APPLICATION_CREDIT_CONTROL,
            1,
            1,
        );
        resp.add_avp(DiameterAvp::new_string(AVP_SESSION_ID, ccr.session_id.as_str()));
        resp.add_avp(DiameterAvp::new_u32(AVP_CC_REQUEST_TYPE, ccr.request_type.as_u32()));
        resp.add_avp(DiameterAvp::new_u32(AVP_CC_REQUEST_NUMBER, ccr.request_number));
        assert(resp@.avps =~= cca_head(*ccr));
        let mut account = match self.accounts.remove(ccr.subscriber_id.as_str()) {
            Some(acc) => acc,
            None => {
                resp.add_avp(DiameterAvp::new_u32(AVP_RESULT_CODE, DIAMETER_USER_UNKNOWN));
                assert(self.accounts@ =~= old(self).accounts@);
                return resp;
            },
        };
        let ghost acc0 = account;
        let quota = self.default_grant_quota_octets;
        let mut answers: Vec<MsccContainer> = Vec::new();
        match ccr.request_type {
            CcRequestType::InitialRequest => {
                account.active_session = Some(ccr.session_id.clone());
                answers = grant_all(&mut account, &ccr.mscc, quota);
            },
            CcRequestType::UpdateRequest => {
                charge_usage(&mut account, &ccr.mscc);
                answers = grant_all(&mut account, &ccr.mscc, quota);
            },
            CcRequestType::TerminationRequest => {
                charge_usage(&mut account, &ccr.mscc);
                account.granted_reserved_octets = 0;
                account.active_session = None;
            },
            CcRequestType::EventRequest => {},
        }
        resp.add_avp(DiameterAvp::new_u32(AVP_RESULT_CODE, DIAMETER_SUCCESS));
        let ghost head = resp@.avps;
        let mut i: usize = 0;
        while i < answers.len()
            invariant
                i <= answers@.len(),
                resp.header == cca_header(),
                resp@.avps == head + answers@.take(i as int).map_values(|m: MsccContainer| mscc_avp(m)),
            decreases answers@.len() - i,
        {
            let a = answers[i].to_avp();
            resp.add_avp(a);
            i = i + 1;
            assert(answers@.take(i as int).map_values(|m: MsccContainer| mscc_avp(m)) =~= answers@.take(
                i - 1,
            ).map_values(|m: MsccContainer| mscc_avp(m)).push(mscc_avp(answers@[i - 1])));
        }
        assert(answers@.take(i as int) =~= answers@);
        assert(Seq::<MsccContainer>::empty().map_values(|m: MsccContainer| mscc_avp(m)) =~= Seq::<AvpModel>::empty());
        assert(head + Seq::<AvpModel>::empty() =~= head);
        self.accounts.insert(ccr.subscriber_id.clone(), account);
        assert(self.accounts@.dom() =~= old(self).accounts@.dom());
        proof {
            let k = ccr.subscriber_id@;
            let q = old(self).default_grant_quota_octets;
            assert(acc0 == old(self).accounts@[k]);
            assert(self.accounts@[k] == account);
            assert(forall|k2: Seq<char>| k2 != k && #[trigger] old(self).accounts@.dom().contains(k2)
                ==> self.accounts@[k2] == old(self).accounts@[k2]);
            match ccr.request_type {
                CcRequestType::InitialRequest => {
                    assert(account.subscriber_id == acc0.subscriber_id);
                    assert(account.granted_reserved_octets == reserved_after(acc0.total_balance_octets, acc0.granted_reserved_octets, q, ccr.mscc@.len()));
                    assert(answers@ == grant_answers(acc0.total_balance_octets, acc0.granted_reserved_octets, q, ccr.mscc@));
                    assert(resp@.avps == cca_head(*ccr).push(result_avp(DIAMETER_SUCCESS)) + answers@.map_values(|m: MsccContainer| mscc_avp(m)));
                },
                CcRequestType::UpdateRequest => {
                    let (t, rv, used) = usage(acc0.total_balance_octets, acc0.granted_reserved_octets, ccr.mscc@);
                    assert(account == SubscriberAccount {
                                total_balance_octets: t,
                                granted_reserved_octets: reserved_after(t, rv, q, ccr.mscc@.len()),
                                consumed_octets: (acc0.consumed_octets + used) as u64,
                                ..acc0
                            });
                    assert(answers@ == grant_answers(t, rv, q, ccr.mscc@));
                    assert(resp@.avps == cca_head(*ccr).push(result_avp(DIAMETER_SUCCESS)) + answers@.map_values(|m: MsccContainer| mscc_avp(m)));
                },
                CcRequestType::TerminationRequest => {
                    let (t, rv, used) = usage(acc0.total_balance_octets, acc0.granted_reserved_octets, ccr.mscc@);
                    lemma_usage_nonneg(acc0.total_balance_octets, acc0.granted_reserved_octets, ccr.mscc@);
                    assert(account.total_balance_octets == t);
                    assert(account.consumed_octets == acc0.consumed_octets + used);
                    assert(resp@.avps == cca_head(*ccr).push(result_avp(DIAMETER_SUCCESS)));
                },
                CcRequestType::EventRequest => {
                    assert(account == acc0);
                    assert(resp@.avps == cca_head(*ccr).push(result_avp(DIAMETER_SUCCESS)));
                },
            }
        }
        resp
    }
}

/// Granting never reserves beyond the balance: a reservation within the balance stays
/// within it however many services are granted to.
pub proof fn lemma_reservation_within_balance(total: u64, reserved: u64, quota: u64, n: nat)
    requires
        reserved <= total,
    ensures
        reserved <= reserved_after(total, reserved, quota, n) <= total,
    decreases n,
{
    if n > 0 {
        lemma_reservation_within_balance(total, reserved, quota, (n - 1) as nat);
    }
}

proof fn lemma_usage_keeps_order(total: u64, reserved: u64, reqs: Seq<MsccContainer>)
    requires
        reserved <= total,
    ensures
        usage(total, reserved, reqs).1 <= usage(total, reserved, reqs).0,
    decreases reqs.len(),
{
    if reqs.len() > 0 {
        lemma_usage_keeps_order(total, reserved, reqs.drop_last());
    }
}

/// A subscriber's reservation stays within its balance across every kind of credit-control
/// request: if it did before, it does after an initial request (grants on the balance),
/// after an update (usage charged from both, then grants) and after a termination (usage
/// charged, reservation released); an event changes nothing.
pub proof fn lemma_ccr_keeps_reservation_within_balance(total: u64, reserved: u64, quota: u64, reqs: Seq<MsccContainer>)
    requires
        reserved <= total,
    ensures
        reserved_after(total, reserved, quota, reqs.len()) <= total,
        ({
            let (t, rv, used) = usage(total, reserved, reqs);
            &&& rv <= t
            &&& reserved_after(t, rv, quota, reqs.len()) <= t
        }),
{
    lemma_reservation_within_balance(total, reserved, quota, reqs.len());
    lemma_usage_keeps_order(total, reserved, reqs);
    let (t, rv, used) = usage(total, reserved, reqs);
    lemma_reservation_within_balance(t, rv, quota, reqs.len());
}

/// Every grant that a credit-control answer carries (the MSCCs of `grant_answers`, for an
/// initial request on the balance and reservation held, for an update on those left after
/// the usage is charged) is at most the engine's default quota, valid for an hour, and not
/// zero while that quota is not zero; a service is refused (credit limit reached) exactly
/// when nothing is left to grant.
pub proof fn lemma_grants_within_quota(total: u64, reserved: u64, quota: u64, reqs: Seq<MsccContainer>)
    ensures
        forall|i: int| #![trigger grant_answers(total, reserved, quota, reqs)[i]] 0 <= i < reqs.len() ==> {
            let m = grant_answers(total, reserved, quota, reqs)[i];
            let r = reserved_after(total, reserved, quota, i as nat);
            &&& m.rating_group == reqs[i].rating_group
            &&& (m.granted_units is Some <==> avail(total, r) > 0)
            &&& (m.granted_units is None ==> m.result_code == DIAMETER_CREDIT_LIMIT_REACHED)
            &&& (m.granted_units matches Some(g) ==> {
                &&& g.total_octets <= quota
                &&& g.time_seconds == GRANTED_TIME_SECONDS
                &&& quota > 0 ==> g.total_octets > 0
            })
        },
{
}

proof fn lemma_msccs_of_appended(head: Seq<AvpModel>, ms: Seq<MsccContainer>)
    ensures
        msccs_of(head + ms.map_values(|m: MsccContainer| mscc_avp(m))) == msccs_of(head) + ms.map_values(
            |m: MsccContainer| mscc_carried(m),
        ),
    decreases ms.len(),
{
    let f = |m: MsccContainer| mscc_avp(m);
    let g = |m: MsccContainer| mscc_carried(m);
    if ms.len() == 0 {
        assert(head + ms.map_values(f) =~= head);
        assert(msccs_of(head) + ms.map_values(g) =~= msccs_of(head));
    } else {
        let whole = head + ms.map_values(f);
        lemma_msccs_of_appended(head, ms.drop_last());
        assert(whole.drop_last() =~= head + ms.drop_last().map_values(f));
        assert(whole.last() == mscc_avp(ms.last()));
        lemma_mscc_roundtrip(ms.last());
        assert(msccs_of(head) + ms.map_values(g) =~= (msccs_of(head) + ms.drop_last().map_values(g)).push(
            mscc_carried(ms.last()),
        ));
    }
}

/// A credit-control request reads back from the message it is written to: the same
/// session, type, number and subscriber, and its MSCCs (used units without their time).
pub proof fn lemma_ccr_roundtrip(c: CreditControlRequest, hop_by_hop_id: u32, end_to_end_id: u32)
    ensures
        ({
            let m = crate::diameter::MessageModel {
                header: ccr_header(hop_by_hop_id, end_to_end_id),
                avps: ccr_avps(c.session_id@, c.request_type, c.request_number, c.subscriber_id@, c.mscc@),
            };
            &&& ccr_readable(m)
            &&& text_avp(m.avps, AVP_SESSION_ID) == Some(c.session_id@)
            &&& cc_type_of(u32_avp(m.avps, AVP_CC_REQUEST_TYPE)->0) == Some(c.request_type)
            &&& u32_avp(m.avps, AVP_CC_REQUEST_NUMBER) == Some(c.request_number)
            &&& text_avp(m.avps, AVP_SUBSCRIPTION_ID_DATA) == Some(c.subscriber_id@)
            &&& msccs_of(m.avps) == c.mscc@.map_values(|x: MsccContainer| mscc_carried(x))
        }),
{
    let avps = ccr_avps(c.session_id@, c.request_type, c.request_number, c.subscriber_id@, c.mscc@);
    let head = avps.take(4);
    assert((0x80u8 | 0x40u8) & 0x80u8 != 0) by (bit_vector);
    vstd::utf8::encode_utf8_decode_utf8(c.session_id@);
    vstd::utf8::encode_utf8_decode_utf8(c.subscriber_id@);
    vstd::utf8::encode_utf8_valid_utf8(c.session_id@);
    vstd::utf8::encode_utf8_valid_utf8(c.subscriber_id@);
    crate::wire::lemma_u32_roundtrip(cc_type_code(c.request_type));
    crate::wire::lemma_u32_roundtrip(c.request_number);
    reveal_with_fuel(find_avp, 5);
    assert(avps.skip(1)[0] == avps[1]);
    assert(avps.skip(1).skip(1)[0] == avps[2]);
    assert(avps.skip(1).skip(1).skip(1)[0] == avps[3]);
    assert(find_avp(avps, AVP_SESSION_ID) == Some(avps[0]));
    assert(find_avp(avps, AVP_CC_REQUEST_TYPE) == Some(avps[1]));
    assert(find_avp(avps, AVP_CC_REQUEST_NUMBER) == Some(avps[2]));
    assert(find_avp(avps, AVP_SUBSCRIPTION_ID_DATA) == Some(avps[3]));
    assert(avps =~= head + c.mscc@.map_values(|m: MsccContainer| mscc_avp(m)));
    lemma_msccs_of_appended(head, c.mscc@);
    reveal_with_fuel(msccs_of, 5);
    assert(head.drop_last().drop_last().drop_last().drop_last().len() == 0);
    assert(msccs_of(head) =~= Seq::<MsccContainer>::empty());
    assert(Seq::<MsccContainer>::empty() + c.mscc@.map_values(|x: MsccContainer| mscc_carried(x))
        =~= c.mscc@.map_values(|x: MsccContainer| mscc_carried(x)));
}

} // verus!
