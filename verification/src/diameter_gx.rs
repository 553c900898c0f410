//! Diameter Gx (policy and charging control between PCRF and PCEF): PCC rules as
//! Charging-Rule-Definition AVPs, Gx credit-control and re-auth messages, and the
//! rule tables the PCEF enforces and the PCRF provisions.
use vstd::prelude::*;
use vstd::string::*;
use vstd::utf8::{decode_utf8, encode_utf8, valid_utf8};
use crate::diameter::{
    AvpModel, DiameterAvp, DiameterHeader, DiameterMessage, DIAMETER_SUCCESS, DIAMETER_FLAG_REQUEST,
    DIAMETER_FLAG_PROXIABLE, DIAMETER_VERSION_1, avp_models, avps_bytes, avps_parse_prefix, find_avp,
    mandatory_avp, serialize_avps,
};
use crate::diameter_charging::{CcRequestType, cc_type_code, u32_value, text_avp};
use crate::wire::{u32_bytes, be32_at, push_u32};
use crate::text::{owned, lossy_chars, string_from_utf8_lossy, str_eq, strings_view, copy_strings};
use crate::table::StrTable;

verus! {

pub const DIAMETER_APPLICATION_GX: u32 = 16777238;
pub const DIAMETER_CMD_CC: u32 = 272;
pub const DIAMETER_CMD_RE_AUTH: u32 = 258;

pub const AVP_CHARGING_RULE_INSTALL: u32 = 1001;
pub const AVP_CHARGING_RULE_REMOVE: u32 = 1002;
pub const AVP_CHARGING_RULE_DEFINITION: u32 = 1003;
pub const AVP_CHARGING_RULE_NAME: u32 = 1005;
pub const AVP_EVENT_TRIGGER: u32 = 1006;
pub const AVP_QOS_INFORMATION: u32 = 1016;
pub const AVP_IP_CAN_TYPE: u32 = 1027;
pub const AVP_QOS_CLASS_IDENTIFIER: u32 = 1028;
pub const AVP_FLOW_INFORMATION: u32 = 1058;
pub const AVP_FLOW_DESCRIPTION: u32 = 507;
pub const AVP_FLOW_STATUS: u32 = 511;
pub const AVP_MAX_REQUESTED_BANDWIDTH_UL: u32 = 516;
pub const AVP_MAX_REQUESTED_BANDWIDTH_DL: u32 = 515;
pub const AVP_FLOW_DIRECTION: u32 = 1080;
pub const AVP_PRE_EMPTION_CAPABILITY: u32 = 1047;
pub const AVP_PRE_EMPTION_VULNERABILITY: u32 = 1048;

pub const VENDOR_3GPP: u32 = 10415;

/// The flags of the 3GPP AVPs of this interface: vendor-specific and mandatory.
pub const GX_AVP_FLAGS: u8 = 0xC0;

/// The precedence of rules built or read here.
pub const DEFAULT_PRECEDENCE: u32 = 100;

/// The QCI of a rule whose QoS information names none.
pub const DEFAULT_QCI: u32 = 9;

/// DIAMETER_UNKNOWN_SESSION_ID.
pub const DIAMETER_UNKNOWN_SESSION_ID: u32 = 5002;

#[derive(Debug, Clone, Copy, PartialEq, Eq, Structural)]
pub enum IpCanType {
    ThreeGppGprs,
    ThreeGppEps,
    ThreeGpp5Gs,
    NonThreeGpp,
}

/// The IP-CAN-Type value of a type.
pub open spec fn ip_can_code(t: IpCanType) -> u32 {
    match t {
        IpCanType::ThreeGppGprs => 0,
        IpCanType::ThreeGppEps => 5,
        IpCanType::ThreeGpp5Gs => 7,
        IpCanType::NonThreeGpp => 10,
    }
}

/// The type of an IP-CAN-Type value: any value but 0, 5 and 7 is a non-3GPP access.
pub open spec fn ip_can_of(v: u32) -> IpCanType {
    if v == 0 {
        IpCanType::ThreeGppGprs
    } else if v == 5 {
        IpCanType::ThreeGppEps
    } else if v == 7 {
        IpCanType::ThreeGpp5Gs
    } else {
        IpCanType::NonThreeGpp
    }
}

impl IpCanType {
    pub fn from_u32(val: u32) -> (r: Self)
        ensures
            r == ip_can_of(val),
    {
        match val {
            0 => IpCanType::ThreeGppGprs,
            5 => IpCanType::ThreeGppEps,
            7 => IpCanType::ThreeGpp5Gs,
            _ => IpCanType::NonThreeGpp,
        }
    }

    /// The IP-CAN-Type value.
    pub fn as_u32(self) -> (r: u32)
        ensures
            r == ip_can_code(self),
    {
        match self {
            IpCanType::ThreeGppGprs => 0,
            IpCanType::ThreeGppEps => 5,
            IpCanType::ThreeGpp5Gs => 7,
            IpCanType::NonThreeGpp => 10,
        }
    }
}

/// A type read back from its value is the type written.
pub proof fn lemma_ip_can_roundtrip(t: IpCanType)
    ensures
        ip_can_of(ip_can_code(t)) == t,
{
}

#[derive(Debug, Clone, PartialEq, Eq)]
pub struct PccRule {
    pub rule_name: String,
    pub flow_descriptions: Vec<String>,
    pub qci: u32,
    pub max_bandwidth_ul_bps: u32,
    pub max_bandwidth_dl_bps: u32,
    pub precedence: u32,
    pub gate_enabled: bool,
}

/// The content of a PCC rule.
pub struct PccRuleModel {
    pub name: Seq<char>,
    pub flows: Seq<Seq<char>>,
    pub qci: u32,
    pub ul: u32,
    pub dl: u32,
    pub precedence: u32,
    pub gate: bool,
}

impl View for PccRule {
    type V = PccRuleModel;

    open spec fn view(&self) -> PccRuleModel {
        PccRuleModel {
            name: self.rule_name@,
            flows: strings_view(self.flow_descriptions@),
            qci: self.qci,
            ul: self.max_bandwidth_ul_bps,
            dl: self.max_bandwidth_dl_bps,
            precedence: self.precedence,
            gate: self.gate_enabled,
        }
    }
}

/// The contents of a list of rules.
pub open spec fn rules_view(rs: Seq<PccRule>) -> Seq<PccRuleModel> {
    rs.map_values(|r: PccRule| r@)
}

/// A 3GPP AVP of this interface.
pub open spec fn gx_avp(code: u32, data: Seq<u8>) -> AvpModel {
    AvpModel { code, flags: GX_AVP_FLAGS, vendor_id: Some(VENDOR_3GPP), data }
}

fn gx_new(code: u32, data: &[u8]) -> (r: DiameterAvp)
    ensures
        r@ == gx_avp(code, data@),
{
    DiameterAvp::new_vendor(code, GX_AVP_FLAGS, VENDOR_3GPP, data)
}

/// The Flow-Information AVP carrying one flow description.
pub open spec fn flow_info_avp(flow: Seq<char>) -> AvpModel {
    gx_avp(AVP_FLOW_INFORMATION, crate::diameter::avp_bytes(gx_avp(AVP_FLOW_DESCRIPTION, encode_utf8(flow))))
}

/// The QoS-Information AVP of a rule: QCI and the two maximum bandwidths.
pub open spec fn qos_avp(qci: u32, ul: u32, dl: u32) -> AvpModel {
    gx_avp(
        AVP_QOS_INFORMATION,
        avps_bytes(
            seq![
                gx_avp(AVP_QOS_CLASS_IDENTIFIER, u32_bytes(qci)),
                gx_avp(AVP_MAX_REQUESTED_BANDWIDTH_UL, u32_bytes(ul)),
                gx_avp(AVP_MAX_REQUESTED_BANDWIDTH_DL, u32_bytes(dl)),
            ],
        ),
    )
}

/// The AVPs inside a Charging-Rule-Definition: the name, one Flow-Information per flow,
/// the QoS information.
pub open spec fn rule_inner_avps(r: PccRuleModel) -> Seq<AvpModel> {
    seq![gx_avp(AVP_CHARGING_RULE_NAME, encode_utf8(r.name))] + r.flows.map_values(|f: Seq<char>| flow_info_avp(f))
        + seq![qos_avp(r.qci, r.ul, r.dl)]
}

/// The Charging-Rule-Definition AVP of a rule.
pub open spec fn rule_def_avp(r: PccRuleModel) -> AvpModel {
    gx_avp(AVP_CHARGING_RULE_DEFINITION, avps_bytes(rule_inner_avps(r)))
}

/// The flow descriptions among AVPs, each decoded as `String::from_utf8_lossy` does.
pub open spec fn flows_in(avps: Seq<AvpModel>) -> Seq<Seq<char>>
    decreases avps.len(),
{
    if avps.len() == 0 {
        Seq::empty()
    } else {
        flows_in(avps.drop_last()) + (if avps.last().code == AVP_FLOW_DESCRIPTION {
            seq![lossy_chars(avps.last().data)]
        } else {
            Seq::empty()
        })
    }
}

/// The number in `data`, or `default` where it holds fewer than four octets.
pub open spec fn u32_or(data: Seq<u8>, default: u32) -> u32 {
    match u32_value(data) {
        Some(v) => v,
        None => default,
    }
}

/// QCI and bandwidths after the QoS AVPs, from `start`, the later of two alike winning.
pub open spec fn qos_fold(avps: Seq<AvpModel>, start: (u32, u32, u32)) -> (u32, u32, u32)
    decreases avps.len(),
{
    if avps.len() == 0 {
        start
    } else {
        let (q, u, d) = qos_fold(avps.drop_last(), start);
        let a = avps.last();
        if a.code == AVP_QOS_CLASS_IDENTIFIER {
            (u32_or(a.data, DEFAULT_QCI), u, d)
        } else if a.code == AVP_MAX_REQUESTED_BANDWIDTH_UL {
            (q, u32_or(a.data, 0), d)
        } else if a.code == AVP_MAX_REQUESTED_BANDWIDTH_DL {
            (q, u, u32_or(a.data, 0))
        } else {
            (q, u, d)
        }
    }
}

/// A rule read from the AVPs of a definition: the name of the last name AVP, the flows of
/// every Flow-Information AVP in order, and the QoS of the QoS-Information AVPs (QCI 9
/// and zero bandwidths where none are given).
pub open spec fn rule_fold(avps: Seq<AvpModel>) -> PccRuleModel
    decreases avps.len(),
{
    if avps.len() == 0 {
        PccRuleModel {
            name: Seq::empty(),
            flows: Seq::empty(),
            qci: DEFAULT_QCI,
            ul: 0,
            dl: 0,
            precedence: DEFAULT_PRECEDENCE,
            gate: true,
        }
    } else {
        let r = rule_fold(avps.drop_last());
        let a = avps.last();
        if a.code == AVP_CHARGING_RULE_NAME {
            PccRuleModel { name: lossy_chars(a.data), ..r }
        } else if a.code == AVP_FLOW_INFORMATION {
            PccRuleModel { flows: r.flows + flows_in(avps_parse_prefix(a.data)), ..r }
        } else if a.code == AVP_QOS_INFORMATION {
            let (q, u, d) = qos_fold(avps_parse_prefix(a.data), (r.qci, r.ul, r.dl));
            PccRuleModel { qci: q, ul: u, dl: d, ..r }
        } else {
            r
        }
    }
}

/// A rule read from the data of its definition; `None` without a name.
pub open spec fn rule_parse(data: Seq<u8>) -> Option<PccRuleModel> {
    let r = rule_fold(avps_parse_prefix(data));
    if r.name.len() == 0 { None } else { Some(r) }
}

/// A copy of a rule.
pub fn copy_rule(r: &PccRule) -> (c: PccRule)
    ensures
        c@ == r@,
{
    PccRule {
        rule_name: r.rule_name.clone(),
        flow_descriptions: copy_strings(&r.flow_descriptions),
        qci: r.qci,
        max_bandwidth_ul_bps: r.max_bandwidth_ul_bps,
        max_bandwidth_dl_bps: r.max_bandwidth_dl_bps,
        precedence: r.precedence,
        gate_enabled: r.gate_enabled,
    }
}

fn read_flows(data: &[u8], flows: &mut Vec<String>)
    ensures
        strings_view(final(flows)@) == strings_view(old(flows)@) + flows_in(avps_parse_prefix(data@)),
{
    let inner = DiameterAvp::parse_all(data);
    let ghost models = avp_models(inner@);
    let ghost start = strings_view(flows@);
    let mut i: usize = 0;
    assert(models.take(0).len() == 0);
    assert(start + flows_in(models.take(0)) =~= start);
    while i < inner.len()
        invariant
            i <= inner@.len(),
            models == avp_models(inner@),
            models == avps_parse_prefix(data@),
            strings_view(flows@) == start + flows_in(models.take(i as int)),
        decreases inner@.len() - i,
    {
        let f = &inner[i];
        assert(models.take(i + 1).drop_last() =~= models.take(i as int));
        assert(models.take(i + 1).last() == f@);
        if f.code == AVP_FLOW_DESCRIPTION {
            let s = string_from_utf8_lossy(f.data.as_slice());
            let ghost before = strings_view(flows@);
            flows.push(s);
            assert(strings_view(flows@) =~= before.push(s@));
        }
        i = i + 1;
        assert(strings_view(flows@) =~= start + flows_in(models.take(i as int)));
    }
    assert(models.take(i as int) =~= models);
}

fn read_qos(data: &[u8], qci: &mut u32, ul: &mut u32, dl: &mut u32)
    ensures
        (*final(qci), *final(ul), *final(dl)) == qos_fold(avps_parse_prefix(data@), (*old(qci), *old(ul), *old(dl))),
{
    let inner = DiameterAvp::parse_all(data);
    let ghost models = avp_models(inner@);
    let ghost start = (*qci, *ul, *dl);
    let mut i: usize = 0;
    assert(models.take(0).len() == 0);
    while i < inner.len()
        invariant
            i <= inner@.len(),
            models == avp_models(inner@),
            models == avps_parse_prefix(data@),
            (*qci, *ul, *dl) == qos_fold(models.take(i as int), start),
        decreases inner@.len() - i,
    {
        let q = &inner[i];
        assert(models.take(i + 1).drop_last() =~= models.take(i as int));
        assert(models.take(i + 1).last() == q@);
        if q.code == AVP_QOS_CLASS_IDENTIFIER {
            *qci = match q.as_u32() {
                Some(v) => v,
                None => DEFAULT_QCI,
            };
        } else if q.code == AVP_MAX_REQUESTED_BANDWIDTH_UL {
            *ul = match q.as_u32() {
                Some(v) => v,
                None => 0,
            };
        } else if q.code == AVP_MAX_REQUESTED_BANDWIDTH_DL {
            *dl = match q.as_u32() {
                Some(v) => v,
                None => 0,
            };
        }
        i = i + 1;
    }
    assert(models.take(i as int) =~= models);
}

impl PccRule {
    /// A rule with no flows, precedence 100 and its gate open.
    pub fn new(rule_name: &str, qci: u32, bw_ul: u32, bw_dl: u32) -> (r: Self)
        ensures
            r@ == (PccRuleModel {
                name: rule_name@,
                flows: Seq::empty(),
                qci,
                ul: bw_ul,
                dl: bw_dl,
                precedence: DEFAULT_PRECEDENCE,
                gate: true,
            }),
    {
        let r = PccRule {
            rule_name: owned(rule_name),
            flow_descriptions: Vec::new(),
            qci,
            max_bandwidth_ul_bps: bw_ul,
            max_bandwidth_dl_bps: bw_dl,
            precedence: DEFAULT_PRECEDENCE,
            gate_enabled: true,
        };
        assert(strings_view(r.flow_descriptions@) =~= Seq::<Seq<char>>::empty());
        r
    }

    /// The rule as a Charging-Rule-Definition AVP (precedence and gate are not carried).
    pub fn to_grouped_avp(&self) -> (r: DiameterAvp)
        ensures
            r@ == rule_def_avp(self@),
    {
        let mut inner: Vec<DiameterAvp> = Vec::new();
        inner.push(gx_new(AVP_CHARGING_RULE_NAME, self.rule_name.as_str().as_bytes()));
        let ghost head = avp_models(inner@);
        let mut i: usize = 0;
        assert(self@.flows.take(0).map_values(|f: Seq<char>| flow_info_avp(f)) =~= Seq::<AvpModel>::empty());
        assert(head + Seq::<AvpModel>::empty() =~= head);
        while i < self.flow_descriptions.len()
            invariant
                i <= self.flow_descriptions@.len(),
                head == seq![gx_avp(AVP_CHARGING_RULE_NAME, encode_utf8(self.rule_name@))],
                avp_models(inner@) == head + self@.flows.take(i as int).map_values(|f: Seq<char>| flow_info_avp(f)),
            decreases self.flow_descriptions@.len() - i,
        {
            let desc = gx_new(AVP_FLOW_DESCRIPTION, self.flow_descriptions[i].as_str().as_bytes());
            let bytes = desc.serialize();
            let info = gx_new(AVP_FLOW_INFORMATION, bytes.as_slice());
            let ghost before = avp_models(inner@);
            inner.push(info);
            i = i + 1;
            proof {
                assert(self@.flows[i - 1] == self.flow_descriptions@[i - 1]@);
                assert(avp_models(inner@) =~= before.push(info@));
                assert(self@.flows.take(i as int).map_values(|f: Seq<char>| flow_info_avp(f)) =~= self@.flows.take(
                    i - 1,
                ).map_values(|f: Seq<char>| flow_info_avp(f)).push(flow_info_avp(self@.flows[i - 1])));
            }
        }
        let mut qos: Vec<DiameterAvp> = Vec::new();
        let mut b: Vec<u8> = Vec::new();
        push_u32(&mut b, self.qci);
        qos.push(gx_new(AVP_QOS_CLASS_IDENTIFIER, b.as_slice()));
        let mut b: Vec<u8> = Vec::new();
        push_u32(&mut b, self.max_bandwidth_ul_bps);
        qos.push(gx_new(AVP_MAX_REQUESTED_BANDWIDTH_UL, b.as_slice()));
        let mut b: Vec<u8> = Vec::new();
        push_u32(&mut b, self.max_bandwidth_dl_bps);
        qos.push(gx_new(AVP_MAX_REQUESTED_BANDWIDTH_DL, b.as_slice()));
        proof {
            assert(Seq::<u8>::empty() + u32_bytes(self.qci) =~= u32_bytes(self.qci));
        }
        assert(avp_models(qos@) =~= seq![
            gx_avp(AVP_QOS_CLASS_IDENTIFIER, u32_bytes(self.qci)),
            gx_avp(AVP_MAX_REQUESTED_BANDWIDTH_UL, u32_bytes(self.max_bandwidth_ul_bps)),
            gx_avp(AVP_MAX_REQUESTED_BANDWIDTH_DL, u32_bytes(self.max_bandwidth_dl_bps)),
        ]);
        let qos_data = serialize_avps(&qos);
        let ghost before = avp_models(inner@);
        let q = gx_new(AVP_QOS_INFORMATION, qos_data.as_slice());
        inner.push(q);
        assert(self@.flows.take(self@.flows.len() as int) =~= self@.flows);
        assert(avp_models(inner@) =~= before.push(q@));
        assert(avp_models(inner@) =~= rule_inner_avps(self@));
        let def_data = serialize_avps(&inner);
        gx_new(AVP_CHARGING_RULE_DEFINITION, def_data.as_slice())
    }

    /// Reads a rule from a Charging-Rule-Definition AVP (see `rule_parse`); precedence 100,
    /// gate open.
    pub fn from_grouped_avp(avp: &DiameterAvp) -> (r: Option<Self>)
        ensures
            match r {
                Some(rule) => rule_parse(avp.data@) == Some(rule@),
                None => rule_parse(avp.data@) is None,
            },
    {
        let mut rule_name = String::new();
        let mut flows: Vec<String> = Vec::new();
        let mut qci: u32 = DEFAULT_QCI;
        let mut bw_ul: u32 = 0;
        let mut bw_dl: u32 = 0;
        let inner = DiameterAvp::parse_all(avp.data.as_slice());
        let ghost models = avp_models(inner@);
        let mut i: usize = 0;
        assert(models.take(0).len() == 0);
        assert(strings_view(flows@) =~= Seq::<Seq<char>>::empty());
        while i < inner.len()
            invariant
                i <= inner@.len(),
                models == avp_models(inner@),
                models == avps_parse_prefix(avp.data@),
                ({
                    let m = rule_fold(models.take(i as int));
                    &&& m.name == rule_name@
                    &&& m.flows == strings_view(flows@)
                    &&& m.qci == qci && m.ul == bw_ul && m.dl == bw_dl
                    &&& m.precedence == DEFAULT_PRECEDENCE && m.gate
                }),
            decreases inner@.len() - i,
        {
            let a = &inner[i];
            assert(models.take(i + 1).drop_last() =~= models.take(i as int));
            assert(models.take(i + 1).last() == a@);
            if a.code == AVP_CHARGING_RULE_NAME {
                rule_name = string_from_utf8_lossy(a.data.as_slice());
            } else if a.code == AVP_FLOW_INFORMATION {
                read_flows(a.data.as_slice(), &mut flows);
            } else if a.code == AVP_QOS_INFORMATION {
                read_qos(a.data.as_slice(), &mut qci, &mut bw_ul, &mut bw_dl);
            }
            i = i + 1;
        }
        assert(models.take(i as int) =~= models);
        if rule_name.as_str().is_empty() {
            None
        } else {
            Some(PccRule {
                rule_name,
                flow_descriptions: flows,
                qci,
                max_bandwidth_ul_bps: bw_ul,
                max_bandwidth_dl_bps: bw_dl,
                precedence: DEFAULT_PRECEDENCE,
                gate_enabled: true,
            })
        }
    }
}

// ---------------------------------------------------------------------------
// Gx messages
// ---------------------------------------------------------------------------

/// A UTF-8 text AVP with the M bit.
pub open spec fn text_avp_of(code: u32, s: Seq<char>) -> AvpModel {
    mandatory_avp(code, encode_utf8(s))
}

/// The text of the first AVP with `code`, or empty text.
pub open spec fn text_or_empty(avps: Seq<AvpModel>, code: u32) -> Seq<char> {
    match text_avp(avps, code) {
        Some(t) => t,
        None => Seq::empty(),
    }
}

/// The header of a request of this interface.
pub open spec fn gx_request_header(command_code: u32, hop_by_hop: u32, end_to_end: u32) -> DiameterHeader {
    DiameterHeader {
        version: DIAMETER_VERSION_1,
        length: 0,
        flags: DIAMETER_FLAG_REQUEST | DIAMETER_FLAG_PROXIABLE,
        command_code,
        application_id: DIAMETER_APPLICATION_GX,
        hop_by_hop_id: hop_by_hop,
        end_to_end_id: end_to_end,
    }
}

/// The header of an answer of this interface.
pub open spec fn gx_answer_header(command_code: u32, hop_by_hop: u32, end_to_end: u32) -> DiameterHeader {
    DiameterHeader {
        version: DIAMETER_VERSION_1,
        length: 0,
        flags: DIAMETER_FLAG_PROXIABLE,
        command_code,
        application_id: DIAMETER_APPLICATION_GX,
        hop_by_hop_id: hop_by_hop,
        end_to_end_id: end_to_end,
    }
}

pub(crate) fn text_of_avp(msg: &DiameterMessage, code: u32) -> (r: Option<String>)
    ensures
        match r {
            Some(s) => text_avp(msg@.avps, code) == Some(s@),
            None => text_avp(msg@.avps, code) is None,
        },
{
    match msg.get_avp(code) {
        Some(a) => a.as_string(),
        None => None,
    }
}

pub(crate) fn text_or_default(msg: &DiameterMessage, code: u32) -> (r: String)
    ensures
        r@ == text_or_empty(msg@.avps, code),
{
    match text_of_avp(msg, code) {
        Some(s) => s,
        None => String::new(),
    }
}

#[derive(Debug, Clone)]
pub struct GxCreditControlRequest {
    pub session_id: String,
    pub cc_request_type: CcRequestType,
    pub cc_request_number: u32,
    pub subscription_id: String,
    pub ip_can_type: IpCanType,
}

impl GxCreditControlRequest {
    pub fn new(session_id: &str, req_type: CcRequestType, req_num: u32, sub_id: &str, ip_can: IpCanType) -> (r: Self)
        ensures
            r.session_id@ == session_id@,
            r.cc_request_type == req_type,
            r.cc_request_number == req_num,
            r.subscription_id@ == sub_id@,
            r.ip_can_type == ip_can,
    {
        GxCreditControlRequest {
            session_id: owned(session_id),
            cc_request_type: req_type,
            cc_request_number: req_num,
            subscription_id: owned(sub_id),
            ip_can_type: ip_can,
        }
    }

    /// The request as a message: Session-Id, CC-Request-Type, CC-Request-Number,
    /// Subscription-Id and IP-CAN-Type.
    pub fn to_diameter_message(&self, hop_by_hop: u32, end_to_end: u32) -> (r: DiameterMessage)
        ensures
            r.header == gx_request_header(DIAMETER_CMD_CC, hop_by_hop, end_to_end),
            r@.avps == seq![
                text_avp_of(263, self.session_id@),
                mandatory_avp(416, u32_bytes(cc_type_code(self.cc_request_type))),
                mandatory_avp(415, u32_bytes(self.cc_request_number)),
                text_avp_of(443, self.subscription_id@),
                gx_avp(AVP_IP_CAN_TYPE, u32_bytes(ip_can_code(self.ip_can_type))),
            ],
    {
        let mut msg = DiameterMessage::new_request(DIAMETER_CMD_CC, DIAMETER_APPLICATION_GX, hop_by_hop, end_to_end);
        msg.add_avp(DiameterAvp::new_utf8(263, self.session_id.as_str()));
        msg.add_avp(DiameterAvp::new_u32(416, self.cc_request_type.as_u32()));
        msg.add_avp(DiameterAvp::new_u32(415, self.cc_request_number));
        msg.add_avp(DiameterAvp::new_utf8(443, self.subscription_id.as_str()));
        let mut b: Vec<u8> = Vec::new();
        push_u32(&mut b, self.ip_can_type.as_u32());
        msg.add_avp(gx_new(AVP_IP_CAN_TYPE, b.as_slice()));
        assert(Seq::<u8>::empty() + u32_bytes(ip_can_code(self.ip_can_type)) =~= u32_bytes(ip_can_code(self.ip_can_type)));
        assert(msg@.avps =~= seq![
            text_avp_of(263, self.session_id@),
            mandatory_avp(416, u32_bytes(cc_type_code(self.cc_request_type))),
            mandatory_avp(415, u32_bytes(self.cc_request_number)),
            text_avp_of(443, self.subscription_id@),
            gx_avp(AVP_IP_CAN_TYPE, u32_bytes(ip_can_code(self.ip_can_type))),
        ]);
        msg
    }
}

#[derive(Debug, Clone, PartialEq, Eq)]
pub struct GxReAuthRequest {
    pub session_id: String,
    pub origin_host: String,
    pub origin_realm: String,
    pub destination_host: String,
    pub destination_realm: String,
    pub rules_to_install: Vec<PccRule>,
    pub rules_to_remove: Vec<String>,
    pub event_triggers: Vec<u32>,
}

/// The Charging-Rule-Install AVP for a rule.
pub open spec fn install_avp(r: PccRuleModel) -> AvpModel {
    gx_avp(AVP_CHARGING_RULE_INSTALL, crate::diameter::avp_bytes(rule_def_avp(r)))
}

/// The Charging-Rule-Remove AVP for a rule name.
pub open spec fn remove_avp(name: Seq<char>) -> AvpModel {
    gx_avp(AVP_CHARGING_RULE_REMOVE, crate::diameter::avp_bytes(gx_avp(AVP_CHARGING_RULE_NAME, encode_utf8(name))))
}

/// The Event-Trigger AVP for a trigger.
pub open spec fn trigger_avp(t: u32) -> AvpModel {
    gx_avp(AVP_EVENT_TRIGGER, u32_bytes(t))
}

/// The AVPs of a re-auth request.
pub open spec fn rar_avps(r: GxReAuthRequest) -> Seq<AvpModel> {
    seq![
        text_avp_of(263, r.session_id@),
        text_avp_of(264, r.origin_host@),
        text_avp_of(296, r.origin_realm@),
        text_avp_of(293, r.destination_host@),
        text_avp_of(283, r.destination_realm@),
    ] + rules_view(r.rules_to_install@).map_values(|x: PccRuleModel| install_avp(x))
        + strings_view(r.rules_to_remove@).map_values(|n: Seq<char>| remove_avp(n))
        + r.event_triggers@.map_values(|t: u32| trigger_avp(t))
}

/// The rules of the definitions among AVPs that read.
pub open spec fn defs_in(subs: Seq<AvpModel>) -> Seq<PccRuleModel>
    decreases subs.len(),
{
    if subs.len() == 0 {
        Seq::empty()
    } else {
        defs_in(subs.drop_last()) + (if subs.last().code == AVP_CHARGING_RULE_DEFINITION {
            match rule_parse(subs.last().data) {
                Some(r) => seq![r],
                None => Seq::empty(),
            }
        } else {
            Seq::empty()
        })
    }
}

/// The rule names among AVPs, decoded as `String::from_utf8_lossy` does.
pub open spec fn names_in(subs: Seq<AvpModel>) -> Seq<Seq<char>>
    decreases subs.len(),
{
    if subs.len() == 0 {
        Seq::empty()
    } else {
        names_in(subs.drop_last()) + (if subs.last().code == AVP_CHARGING_RULE_NAME {
            seq![lossy_chars(subs.last().data)]
        } else {
            Seq::empty()
        })
    }
}

/// The rules to install of a message: the definitions inside its install AVPs, in order.
pub open spec fn installs_in(avps: Seq<AvpModel>) -> Seq<PccRuleModel>
    decreases avps.len(),
{
    if avps.len() == 0 {
        Seq::empty()
    } else {
        installs_in(avps.drop_last()) + (if avps.last().code == AVP_CHARGING_RULE_INSTALL {
            defs_in(avps_parse_prefix(avps.last().data))
        } else {
            Seq::empty()
        })
    }
}

/// The rule names to remove of a message: the names inside its remove AVPs, in order.
pub open spec fn removes_in(avps: Seq<AvpModel>) -> Seq<Seq<char>>
    decreases avps.len(),
{
    if avps.len() == 0 {
        Seq::empty()
    } else {
        removes_in(avps.drop_last()) + (if avps.last().code == AVP_CHARGING_RULE_REMOVE {
            names_in(avps_parse_prefix(avps.last().data))
        } else {
            Seq::empty()
        })
    }
}

/// The event triggers of a message: its trigger AVPs of four octets or more.
pub open spec fn triggers_in(avps: Seq<AvpModel>) -> Seq<u32>
    decreases avps.len(),
{
    if avps.len() == 0 {
        Seq::empty()
    } else {
        triggers_in(avps.drop_last()) + (if avps.last().code == AVP_EVENT_TRIGGER {
            match u32_value(avps.last().data) {
                Some(v) => seq![v],
                None => Seq::empty(),
            }
        } else {
            Seq::empty()
        })
    }
}

fn collect_defs(data: &[u8], out: &mut Vec<PccRule>)
    ensures
        rules_view(final(out)@) == rules_view(old(out)@) + defs_in(avps_parse_prefix(data@)),
{
    let inner = DiameterAvp::parse_all(data);
    let ghost models = avp_models(inner@);
    let ghost start = rules_view(out@);
    let mut i: usize = 0;
    assert(models.take(0).len() == 0);
    assert(start + defs_in(models.take(0)) =~= start);
    while i < inner.len()
        invariant
            i <= inner@.len(),
            models == avp_models(inner@),
            models == avps_parse_prefix(data@),
            rules_view(out@) == start + defs_in(models.take(i as int)),
        decreases inner@.len() - i,
    {
        let sub = &inner[i];
        assert(models.take(i + 1).drop_last() =~= models.take(i as int));
        assert(models.take(i + 1).last() == sub@);
        if sub.code == AVP_CHARGING_RULE_DEFINITION {
            match PccRule::from_grouped_avp(sub) {
                Some(r) => {
                    let ghost before = rules_view(out@);
                    out.push(r);
                    assert(rules_view(out@) =~= before.push(r@));
                },
                None => {},
            }
        }
        i = i + 1;
        assert(rules_view(out@) =~= start + defs_in(models.take(i as int)));
    }
    assert(models.take(i as int) =~= models);
}

fn collect_names(data: &[u8], out: &mut Vec<String>)
    ensures
        strings_view(final(out)@) == strings_view(old(out)@) + names_in(avps_parse_prefix(data@)),
{
    let inner = DiameterAvp::parse_all(data);
    let ghost models = avp_models(inner@);
    let ghost start = strings_view(out@);
    let mut i: usize = 0;
    assert(models.take(0).len() == 0);
    assert(start + names_in(models.take(0)) =~= start);
    while i < inner.len()
        invariant
            i <= inner@.len(),
            models == avp_models(inner@),
            models == avps_parse_prefix(data@),
            strings_view(out@) == start + names_in(models.take(i as int)),
        decreases inner@.len() - i,
    {
        let sub = &inner[i];
        assert(models.take(i + 1).drop_last() =~= models.take(i as int));
        assert(models.take(i + 1).last() == sub@);
        if sub.code == AVP_CHARGING_RULE_NAME {
            let s = string_from_utf8_lossy(sub.data.as_slice());
            let ghost before = strings_view(out@);
            out.push(s);
            assert(strings_view(out@) =~= before.push(s@));
        }
        i = i + 1;
        assert(strings_view(out@) =~= start + names_in(models.take(i as int)));
    }
    assert(models.take(i as int) =~= models);
}

impl GxReAuthRequest {
    /// The request as a message: session, origin and destination, then one install AVP
    /// per rule, one remove AVP per name and one trigger AVP per trigger.
    pub fn to_diameter_message(&self, hop_by_hop: u32, end_to_end: u32) -> (r: DiameterMessage)
        ensures
            r.header == gx_request_header(DIAMETER_CMD_RE_AUTH, hop_by_hop, end_to_end),
            r@.avps == rar_avps(*self),
    {
        let mut msg = DiameterMessage::new_request(DIAMETER_CMD_RE_AUTH, DIAMETER_APPLICATION_GX, hop_by_hop, end_to_end);
        msg.add_avp(DiameterAvp::new_utf8(263, self.session_id.as_str()));
        msg.add_avp(DiameterAvp::new_utf8(264, self.origin_host.as_str()));
        msg.add_avp(DiameterAvp::new_utf8(296, self.origin_realm.as_str()));
        msg.add_avp(DiameterAvp::new_utf8(293, self.destination_host.as_str()));
        msg.add_avp(DiameterAvp::new_utf8(283, self.destination_realm.as_str()));
        let ghost head = msg@.avps;
        let ghost installs = rules_view(self.rules_to_install@).map_values(|x: PccRuleModel| install_avp(x));
        let ghost removes = strings_view(self.rules_to_remove@).map_values(|n: Seq<char>| remove_avp(n));
        let ghost triggers = self.event_triggers@.map_values(|t: u32| trigger_avp(t));
        let mut i: usize = 0;
        assert(head + installs.take(0) =~= head);
        while i < self.rules_to_install.len()
            invariant
                i <= self.rules_to_install@.len(),
                installs == rules_view(self.rules_to_install@).map_values(|x: PccRuleModel| install_avp(x)),
                msg.header == gx_request_header(DIAMETER_CMD_RE_AUTH, hop_by_hop, end_to_end),
                msg@.avps == head + installs.take(i as int),
            decreases self.rules_to_install@.len() - i,
        {
            let def_avp = self.rules_to_install[i].to_grouped_avp();
            let bytes = def_avp.serialize();
            msg.add_avp(gx_new(AVP_CHARGING_RULE_INSTALL, bytes.as_slice()));
            i = i + 1;
            assert(installs.take(i as int) =~= installs.take(i - 1).push(installs[i - 1]));
        }
        assert(installs.take(i as int) =~= installs);
        let ghost head2 = msg@.avps;
        let mut j: usize = 0;
        assert(head2 + removes.take(0) =~= head2);
        while j < self.rules_to_remove.len()
            invariant
                j <= self.rules_to_remove@.len(),
                removes == strings_view(self.rules_to_remove@).map_values(|n: Seq<char>| remove_avp(n)),
                msg.header == gx_request_header(DIAMETER_CMD_RE_AUTH, hop_by_hop, end_to_end),
                msg@.avps == head2 + removes.take(j as int),
            decreases self.rules_to_remove@.len() - j,
        {
            let name_avp = gx_new(AVP_CHARGING_RULE_NAME, self.rules_to_remove[j].as_str().as_bytes());
            let bytes = name_avp.serialize();
            msg.add_avp(gx_new(AVP_CHARGING_RULE_REMOVE, bytes.as_slice()));
            j = j + 1;
            assert(removes.take(j as int) =~= removes.take(j - 1).push(removes[j - 1]));
        }
        assert(removes.take(j as int) =~= removes);
        let ghost head3 = msg@.avps;
        let mut k: usize = 0;
        assert(head3 + triggers.take(0) =~= head3);
        while k < self.event_triggers.len()
            invariant
                k <= self.event_triggers@.len(),
                triggers == self.event_triggers@.map_values(|t: u32| trigger_avp(t)),
                msg.header == gx_request_header(DIAMETER_CMD_RE_AUTH, hop_by_hop, end_to_end),
                msg@.avps == head3 + triggers.take(k as int),
            decreases self.event_triggers@.len() - k,
        {
            let mut b: Vec<u8> = Vec::new();
            push_u32(&mut b, self.event_triggers[k]);
            assert(b@ =~= u32_bytes(self.event_triggers@[k as int]));
            msg.add_avp(gx_new(AVP_EVENT_TRIGGER, b.as_slice()));
            k = k + 1;
            assert(triggers.take(k as int) =~= triggers.take(k - 1).push(triggers[k - 1]));
        }
        assert(triggers.take(k as int) =~= triggers);
        assert(msg@.avps =~= rar_avps(*self));
        msg
    }

    /// Reads a re-auth request: `None` without a Session-Id in UTF-8; origin and
    /// destination default to empty text; the rules to install, the names to remove and
    /// the triggers are collected from their AVPs in order (see `installs_in`,
    /// `removes_in`, `triggers_in`).
    pub fn from_diameter_message(msg: &DiameterMessage) -> (r: Option<Self>)
        ensures
            match r {
                None => text_avp(msg@.avps, 263) is None,
                Some(q) => {
                    &&& text_avp(msg@.avps, 263) == Some(q.session_id@)
                    &&& q.origin_host@ == text_or_empty(msg@.avps, 264)
                    &&& q.origin_realm@ == text_or_empty(msg@.avps, 296)
                    &&& q.destination_host@ == text_or_empty(msg@.avps, 293)
                    &&& q.destination_realm@ == text_or_empty(msg@.avps, 283)
                    &&& rules_view(q.rules_to_install@) == installs_in(msg@.avps)
                    &&& strings_view(q.rules_to_remove@) == removes_in(msg@.avps)
                    &&& q.event_triggers@ == triggers_in(msg@.avps)
                },
            },
    {
        let session_id = match text_of_avp(msg, 263) {
            Some(s) => s,
            None => return None,
        };
        let origin_host = text_or_default(msg, 264);
        let origin_realm = text_or_default(msg, 296);
        let destination_host = text_or_default(msg, 293);
        let destination_realm = text_or_default(msg, 283);
        let mut rules_to_install: Vec<PccRule> = Vec::new();
        let mut rules_to_remove: Vec<String> = Vec::new();
        let mut event_triggers: Vec<u32> = Vec::new();
        let ghost models = msg@.avps;
        let mut i: usize = 0;
        assert(models.take(0).len() == 0);
        assert(rules_view(rules_to_install@) =~= Seq::<PccRuleModel>::empty());
        assert(strings_view(rules_to_remove@) =~= Seq::<Seq<char>>::empty());
        while i < msg.avps.len()
            invariant
                i <= msg.avps@.len(),
                models == msg@.avps,
                models == avp_models(msg.avps@),
                rules_view(rules_to_install@) == installs_in(models.take(i as int)),
                strings_view(rules_to_remove@) == removes_in(models.take(i as int)),
                event_triggers@ == triggers_in(models.take(i as int)),
            decreases msg.avps@.len() - i,
        {
            let avp = &msg.avps[i];
            assert(models.take(i + 1).drop_last() =~= models.take(i as int));
            assert(models.take(i + 1).last() == avp@);
            if avp.code == AVP_CHARGING_RULE_INSTALL {
                collect_defs(avp.data.as_slice(), &mut rules_to_install);
                assert(strings_view(rules_to_remove@) + Seq::<Seq<char>>::empty() =~= strings_view(rules_to_remove@));
                assert(event_triggers@ + Seq::<u32>::empty() =~= event_triggers@);
            } else if avp.code == AVP_CHARGING_RULE_REMOVE {
                collect_names(avp.data.as_slice(), &mut rules_to_remove);
                assert(rules_view(rules_to_install@) + Seq::<PccRuleModel>::empty() =~= rules_view(rules_to_install@));
                assert(event_triggers@ + Seq::<u32>::empty() =~= event_triggers@);
            } else if avp.code == AVP_EVENT_TRIGGER {
                match avp.as_u32() {
                    Some(t) => event_triggers.push(t),
                    None => {},
                }
                assert(rules_view(rules_to_install@) + Seq::<PccRuleModel>::empty() =~= rules_view(rules_to_install@));
                assert(strings_view(rules_to_remove@) + Seq::<Seq<char>>::empty() =~= strings_view(rules_to_remove@));
            } else {
                assert(rules_view(rules_to_install@) + Seq::<PccRuleModel>::empty() =~= rules_view(rules_to_install@));
                assert(strings_view(rules_to_remove@) + Seq::<Seq<char>>::empty() =~= strings_view(rules_to_remove@));
                assert(event_triggers@ + Seq::<u32>::empty() =~= event_triggers@);
            }
            i = i + 1;
        }
        assert(models.take(i as int) =~= models);
        Some(GxReAuthRequest {
            session_id,
            origin_host,
            origin_realm,
            destination_host,
            destination_realm,
            rules_to_install,
            rules_to_remove,
            event_triggers,
        })
    }
}

#[derive(Debug, Clone, PartialEq, Eq)]
pub struct GxReAuthAnswer {
    pub session_id: String,
    pub result_code: u32,
    pub origin_host: String,
    pub origin_realm: String,
}

impl GxReAuthAnswer {
    pub fn to_diameter_message(&self, hop_by_hop: u32, end_to_end: u32) -> (r: DiameterMessage)
        ensures
            r.header == gx_answer_header(DIAMETER_CMD_RE_AUTH, hop_by_hop, end_to_end),
            r@.avps == seq![
                text_avp_of(263, self.session_id@),
                mandatory_avp(268, u32_bytes(self.result_code)),
                text_avp_of(264, self.origin_host@),
                text_avp_of(296, self.origin_realm@),
            ],
    {
        let mut msg = DiameterMessage::new_answer(DIAMETER_CMD_RE_AUTH, DIAMETER_APPLICATION_GX, hop_by_hop, end_to_end);
        msg.add_avp(DiameterAvp::new_utf8(263, self.session_id.as_str()));
        msg.add_avp(DiameterAvp::new_u32(268, self.result_code));
        msg.add_avp(DiameterAvp::new_utf8(264, self.origin_host.as_str()));
        msg.add_avp(DiameterAvp::new_utf8(296, self.origin_realm.as_str()));
        assert(msg@.avps =~= seq![
            text_avp_of(263, self.session_id@),
            mandatory_avp(268, u32_bytes(self.result_code)),
            text_avp_of(264, self.origin_host@),
            text_avp_of(296, self.origin_realm@),
        ]);
        msg
    }

    /// Reads an answer: `None` without a Session-Id in UTF-8; the result code defaults to
    /// success and origin to empty text.
    pub fn from_diameter_message(msg: &DiameterMessage) -> (r: Option<Self>)
        ensures
            match r {
                None => text_avp(msg@.avps, 263) is None,
                Some(a) => {
                    &&& text_avp(msg@.avps, 263) == Some(a.session_id@)
                    &&& a.result_code == (match find_avp(msg@.avps, 268) {
                        Some(x) => u32_or(x.data, DIAMETER_SUCCESS),
                        None => DIAMETER_SUCCESS,
                    })
                    &&& a.origin_host@ == text_or_empty(msg@.avps, 264)
                    &&& a.origin_realm@ == text_or_empty(msg@.avps, 296)
                },
            },
    {
        let session_id = match text_of_avp(msg, 263) {
            Some(s) => s,
            None => return None,
        };
        let result_code = match msg.get_avp(268) {
            Some(a) => match a.as_u32() {
                Some(v) => v,
                None => DIAMETER_SUCCESS,
            },
            None => DIAMETER_SUCCESS,
        };
        let origin_host = text_or_default(msg, 264);
        let origin_realm = text_or_default(msg, 296);
        Some(GxReAuthAnswer { session_id, result_code, origin_host, origin_realm })
    }
}

// ---------------------------------------------------------------------------
// Rule tables
// ---------------------------------------------------------------------------

/// The rules without those named `name`.
pub open spec fn drop_named(rs: Seq<PccRuleModel>, name: Seq<char>) -> Seq<PccRuleModel>
    decreases rs.len(),
{
    if rs.len() == 0 {
        Seq::empty()
    } else if rs.last().name == name {
        drop_named(rs.drop_last(), name)
    } else {
        drop_named(rs.drop_last(), name).push(rs.last())
    }
}

/// The rules after removing each of `names` in turn.
pub open spec fn drop_all(rs: Seq<PccRuleModel>, names: Seq<Seq<char>>) -> Seq<PccRuleModel>
    decreases names.len(),
{
    if names.len() == 0 {
        rs
    } else {
        drop_named(drop_all(rs, names.drop_last()), names.last())
    }
}

/// The rules after installing each of `news` in turn: a new rule replaces those of its
/// name and goes last.
pub open spec fn install_all(rs: Seq<PccRuleModel>, news: Seq<PccRuleModel>) -> Seq<PccRuleModel>
    decreases news.len(),
{
    if news.len() == 0 {
        rs
    } else {
        drop_named(install_all(rs, news.drop_last()), news.last().name).push(news.last())
    }
}

proof fn lemma_drop_named_len(rs: Seq<PccRuleModel>, name: Seq<char>)
    ensures
        drop_named(rs, name).len() <= rs.len(),
        drop_named(rs, name).len() == rs.len() <==> forall|i: int| 0 <= i < rs.len() ==> (#[trigger] rs[i]).name != name,
    decreases rs.len(),
{
    if rs.len() > 0 {
        lemma_drop_named_len(rs.drop_last(), name);
        if rs.last().name != name {
            assert forall|i: int| 0 <= i < rs.len() - 1 implies (#[trigger] rs.drop_last()[i]).name != name <== (forall|j: int| 0 <= j < rs.len() ==> (#[trigger] rs[j]).name != name) by {
                assert(rs.drop_last()[i] == rs[i]);
            }
            if drop_named(rs, name).len() == rs.len() {
                assert forall|i: int| 0 <= i < rs.len() implies (#[trigger] rs[i]).name != name by {
                    if i < rs.len() - 1 {
                        assert(rs.drop_last()[i] == rs[i]);
                    }
                }
            }
        } else {
            assert(rs[rs.len() - 1].name == name);
        }
    }
}

/// Removes the rules named `name`, keeping the order of the others.
fn retain_other(rules: &mut Vec<PccRule>, name: &str)
    ensures
        rules_view(final(rules)@) == drop_named(rules_view(old(rules)@), name@),
{
    let mut src: Vec<PccRule> = Vec::new();
    std::mem::swap(&mut src, rules);
    let ghost orig = rules_view(src@);
    let ghost mut k: int = 0;
    assert(orig.take(0).len() == 0);
    assert(rules_view(rules@) =~= drop_named(orig.take(0), name@));
    while src.len() > 0
        invariant
            0 <= k <= orig.len(),
            orig == rules_view(old(rules)@),
            rules_view(src@) == orig.skip(k),
            rules_view(rules@) == drop_named(orig.take(k), name@),
        decreases src@.len(),
    {
        let r = src.remove(0);
        proof {
            assert(rules_view(src@) =~= orig.skip(k).skip(1));
            assert(orig.skip(k)[0] == r@);
            assert(orig[k] == r@);
            assert(orig.take(k + 1).drop_last() =~= orig.take(k));
            assert(orig.take(k + 1).last() == r@);
            assert(orig.skip(k).skip(1) =~= orig.skip(k + 1));
        }
        if !str_eq(r.rule_name.as_str(), name) {
            let ghost before = rules_view(rules@);
            rules.push(r);
            assert(rules_view(rules@) =~= before.push(r@));
        }
        proof {
            k = k + 1;
        }
    }
    assert(orig.skip(k).len() == 0);
    assert(orig.take(k) =~= orig);
}

/// Installs `rule`: it replaces the rules of its name and goes last.
fn install_into(rules: &mut Vec<PccRule>, rule: PccRule)
    ensures
        rules_view(final(rules)@) == drop_named(rules_view(old(rules)@), rule@.name).push(rule@),
{
    retain_other(rules, rule.rule_name.as_str());
    let ghost before = rules_view(rules@);
    rules.push(rule);
    assert(rules_view(rules@) =~= before.push(rule@));
}

/// The rule every session starts with: best-effort internet, QCI 9, 20/100 Mbit/s.
pub open spec fn internet_rule() -> PccRuleModel {
    PccRuleModel {
        name: "rule-default-internet"@,
        flows: seq!["permit out ip from any to any"@],
        qci: 9,
        ul: 20_000_000,
        dl: 100_000_000,
        precedence: DEFAULT_PRECEDENCE,
        gate: true,
    }
}

/// The IMS signalling rule of EPS and 5GS sessions: QCI 5, 512 kbit/s each way.
pub open spec fn ims_rule() -> PccRuleModel {
    PccRuleModel {
        name: "rule-ims-signalling"@,
        flows: seq!["permit out udp from any to 10.0.0.1 5060"@],
        qci: 5,
        ul: 512_000,
        dl: 512_000,
        precedence: DEFAULT_PRECEDENCE,
        gate: true,
    }
}

/// The rules a new session of the given access gets.
pub open spec fn default_rules(ip_can: IpCanType) -> Seq<PccRuleModel> {
    if ip_can == IpCanType::ThreeGpp5Gs || ip_can == IpCanType::ThreeGppEps {
        seq![internet_rule(), ims_rule()]
    } else {
        seq![internet_rule()]
    }
}

fn build_default_rules(ip_can: IpCanType) -> (r: Vec<PccRule>)
    ensures
        rules_view(r@) == default_rules(ip_can),
{
    let mut rules: Vec<PccRule> = Vec::new();
    let mut r_default = PccRule::new("rule-default-internet", 9, 20_000_000, 100_000_000);
    r_default.flow_descriptions.push(owned("permit out ip from any to any"));
    proof {
        reveal_strlit("rule-default-internet");
        reveal_strlit("permit out ip from any to any");
        assert(strings_view(r_default.flow_descriptions@) =~= seq!["permit out ip from any to any"@]);
    }
    assert(r_default@ == internet_rule());
    rules.push(r_default);
    if ip_can == IpCanType::ThreeGpp5Gs || ip_can == IpCanType::ThreeGppEps {
        let mut r_ims = PccRule::new("rule-ims-signalling", 5, 512_000, 512_000);
        r_ims.flow_descriptions.push(owned("permit out udp from any to 10.0.0.1 5060"));
        proof {
            reveal_strlit("rule-ims-signalling");
            reveal_strlit("permit out udp from any to 10.0.0.1 5060");
            assert(strings_view(r_ims.flow_descriptions@) =~= seq!["permit out udp from any to 10.0.0.1 5060"@]);
        }
        assert(r_ims@ == ims_rule());
        rules.push(r_ims);
    }
    assert(rules_view(rules@) =~= default_rules(ip_can));
    rules
}

/// Adds one Charging-Rule-Install AVP per rule to `msg`.
fn add_installs(msg: &mut DiameterMessage, rules: &Vec<PccRule>)
    ensures
        final(msg).header == old(msg).header,
        final(msg)@.avps == old(msg)@.avps + rules_view(rules@).map_values(|x: PccRuleModel| install_avp(x)),
{
    let ghost head = msg@.avps;
    let ghost installs = rules_view(rules@).map_values(|x: PccRuleModel| install_avp(x));
    let mut i: usize = 0;
    assert(head + installs.take(0) =~= head);
    while i < rules.len()
        invariant
            i <= rules@.len(),
            installs == rules_view(rules@).map_values(|x: PccRuleModel| install_avp(x)),
            msg.header == old(msg).header,
            head == old(msg)@.avps,
            msg@.avps == head + installs.take(i as int),
        decreases rules@.len() - i,
    {
        let def_avp = rules[i].to_grouped_avp();
        let bytes = def_avp.serialize();
        msg.add_avp(gx_new(AVP_CHARGING_RULE_INSTALL, bytes.as_slice()));
        i = i + 1;
        assert(installs.take(i as int) =~= installs.take(i - 1).push(installs[i - 1]));
    }
    assert(installs.take(i as int) =~= installs);
}

/// Whether `needle` occurs in `hay`.
pub open spec fn has_sub(hay: Seq<u8>, needle: Seq<u8>) -> bool {
    exists|k: int| 0 <= k && k + needle.len() <= hay.len() && #[trigger] hay.subrange(k, k + needle.len()) == needle
}

/// Whether `needle` occurs in `hay`, octet for octet (as `str::contains` finds a string).
pub fn contains_bytes(hay: &[u8], needle: &[u8]) -> (r: bool)
    ensures
        r == has_sub(hay@, needle@),
{
    if needle.len() > hay.len() {
        return false;
    }
    let n = needle.len();
    let mut k: usize = 0;
    while k <= hay.len() - n
        invariant
            n == needle@.len(),
            n <= hay@.len(),
            k <= hay@.len() - n + 1,
            forall|j: int| 0 <= j < k ==> #[trigger] hay@.subrange(j, j + n) != needle@,
        decreases hay@.len() - n + 1 - k,
    {
        let mut i: usize = 0;
        let mut same = true;
        while i < n
            invariant
                i <= n,
                n == needle@.len(),
                k + n <= hay.len(),
                same == (forall|j: int| 0 <= j < i ==> hay@[k + j] == needle@[j]),
            decreases n - i,
        {
            if hay[k + i] != needle[i] {
                same = false;
            }
            i = i + 1;
        }
        if same {
            assert(hay@.subrange(k as int, k + n) =~= needle@);
            return true;
        }
        assert(hay@.subrange(k as int, k + n)[0] == hay@[k as int] || n == 0);
        proof {
            let j0 = choose|j: int| 0 <= j < n && hay@[k + j] != needle@[j];
            assert(hay@.subrange(k as int, k + n)[j0] != needle@[j0]);
        }
        k = k + 1;
    }
    proof {
        if has_sub(hay@, needle@) {
            let j = choose|j: int| 0 <= j && j + needle@.len() <= hay@.len() && #[trigger] hay@.subrange(j, j + needle@.len()) == needle@;
            assert(hay@.subrange(j, j + n) != needle@);
        }
    }
    false
}

/// Whether a flow description covers a flow: it allows any to any, or either contains
/// the other (octet for octet).
pub open spec fn flow_covers(fd: Seq<char>, flow: Seq<char>) -> bool {
    has_sub(encode_utf8(fd), encode_utf8("any to any"@)) || has_sub(encode_utf8(flow), encode_utf8(fd))
        || has_sub(encode_utf8(fd), encode_utf8(flow))
}

/// Whether a rule passes a flow: its gate is open and one of its descriptions covers it.
pub open spec fn rule_passes(r: PccRuleModel, flow: Seq<char>) -> bool {
    r.gate && exists|j: int| 0 <= j < r.flows.len() && flow_covers(#[trigger] r.flows[j], flow)
}

/// The position of the first rule that passes the flow.
pub open spec fn first_passing(rs: Seq<PccRuleModel>, flow: Seq<char>) -> Option<int>
    decreases rs.len(),
{
    if rs.len() == 0 {
        None
    } else if rule_passes(rs[0], flow) {
        Some(0)
    } else {
        match first_passing(rs.skip(1), flow) {
            Some(i) => Some(i + 1),
            None => None,
        }
    }
}

#[derive(Debug, Clone)]
pub struct PcefGxEngine {
    pub pcrf_realm: String,
    /// Session id -> subscriber.
    pub active_sessions: StrTable<String>,
    /// Session id -> installed rules.
    pub installed_rules: StrTable<Vec<PccRule>>,
    pub total_enforced_bytes: u64,
}

/// The rules installed for a session, where it has any.
pub open spec fn rules_of(e: PcefGxEngine, sid: Seq<char>) -> Seq<PccRuleModel> {
    rules_view(e.installed_rules@[sid]@)
}

/// The tables are well formed.
pub open spec fn pcef_wf(e: PcefGxEngine) -> bool {
    e.active_sessions.wf() && e.installed_rules.wf()
}

impl PcefGxEngine {
    pub fn new(pcrf_realm: &str) -> (r: Self)
        ensures
            pcef_wf(r),
            r.pcrf_realm@ == pcrf_realm@,
            r.active_sessions@ == Map::<Seq<char>, String>::empty(),
            r.installed_rules@ == Map::<Seq<char>, Vec<PccRule>>::empty(),
            r.total_enforced_bytes == 0,
    {
        PcefGxEngine {
            pcrf_realm: owned(pcrf_realm),
            active_sessions: StrTable::new(),
            installed_rules: StrTable::new(),
            total_enforced_bytes: 0,
        }
    }

    /// Binds a session to its subscriber, installs the default rules of its access and
    /// answers with them.
    pub fn handle_session_establishment(&mut self, session_id: &str, subscriber_id: &str, ip_can: IpCanType) -> (r: DiameterMessage)
        requires
            pcef_wf(*old(self)),
        ensures
            pcef_wf(*final(self)),
            final(self).pcrf_realm == old(self).pcrf_realm,
            final(self).total_enforced_bytes == old(self).total_enforced_bytes,
            final(self).active_sessions@.dom() == old(self).active_sessions@.dom().insert(session_id@),
            final(self).active_sessions@[session_id@]@ == subscriber_id@,
            forall|k: Seq<char>| k != session_id@ && #[trigger] old(self).active_sessions@.dom().contains(k)
                ==> final(self).active_sessions@[k] == old(self).active_sessions@[k],
            final(self).installed_rules@.dom() == old(self).installed_rules@.dom().insert(session_id@),
            rules_of(*final(self), session_id@) == default_rules(ip_can),
            forall|k: Seq<char>| k != session_id@ && #[trigger] old(self).installed_rules@.dom().contains(k)
                ==> final(self).installed_rules@[k] == old(self).installed_rules@[k],
            r.header == gx_answer_header(DIAMETER_CMD_CC, 1, 1),
            r@.avps == seq![
                text_avp_of(263, session_id@),
                mandatory_avp(268, u32_bytes(DIAMETER_SUCCESS)),
                mandatory_avp(416, u32_bytes(1)),
            ] + default_rules(ip_can).map_values(|x: PccRuleModel| install_avp(x)),
    {
        self.active_sessions.insert(owned(session_id), owned(subscriber_id));
        let rules = build_default_rules(ip_can);
        let mut cca = DiameterMessage::new_answer(DIAMETER_CMD_CC, DIAMETER_APPLICATION_GX, 1, 1);
        cca.add_avp(DiameterAvp::new_utf8(263, session_id));
        cca.add_avp(DiameterAvp::new_u32(268, DIAMETER_SUCCESS));
        cca.add_avp(DiameterAvp::new_u32(416, CcRequestType::InitialRequest.as_u32()));
        assert(cca@.avps =~= seq![
            text_avp_of(263, session_id@),
            mandatory_avp(268, u32_bytes(DIAMETER_SUCCESS)),
            mandatory_avp(416, u32_bytes(1)),
        ]);
        add_installs(&mut cca, &rules);
        self.installed_rules.insert(owned(session_id), rules);
        assert(self.active_sessions@.dom() =~= old(self).active_sessions@.dom().insert(session_id@));
        assert(self.installed_rules@.dom() =~= old(self).installed_rules@.dom().insert(session_id@));
        cca
    }

    /// Installs a rule in a session with rules (replacing rules of its name); `false`,
    /// and nothing changes, for a session without.
    pub fn install_rule(&mut self, session_id: &str, rule: PccRule) -> (r: bool)
        requires
            pcef_wf(*old(self)),
        ensures
            pcef_wf(*final(self)),
            final(self).active_sessions == old(self).active_sessions,
            final(self).pcrf_realm == old(self).pcrf_realm,
            final(self).total_enforced_bytes == old(self).total_enforced_bytes,
            r == old(self).installed_rules@.dom().contains(session_id@),
            r ==> final(self).installed_rules@.dom() == old(self).installed_rules@.dom()
                && rules_of(*final(self), session_id@) == drop_named(rules_of(*old(self), session_id@), rule@.name).push(rule@)
                && forall|k: Seq<char>| k != session_id@ && #[trigger] old(self).installed_rules@.dom().contains(k)
                    ==> final(self).installed_rules@[k] == old(self).installed_rules@[k],
            !r ==> final(self).installed_rules@ == old(self).installed_rules@,
    {
        match self.installed_rules.remove(session_id) {
            Some(mut rules) => {
                install_into(&mut rules, rule);
                self.installed_rules.insert(owned(session_id), rules);
                assert(self.installed_rules@.dom() =~= old(self).installed_rules@.dom());
                true
            },
            None => {
                assert(self.installed_rules@ =~= old(self).installed_rules@);
                false
            },
        }
    }

    /// Removes the rules named `rule_name` from a session; `true` when one was there.
    pub fn remove_rule(&mut self, session_id: &str, rule_name: &str) -> (r: bool)
        requires
            pcef_wf(*old(self)),
        ensures
            pcef_wf(*final(self)),
            final(self).active_sessions == old(self).active_sessions,
            final(self).pcrf_realm == old(self).pcrf_realm,
            final(self).total_enforced_bytes == old(self).total_enforced_bytes,
            if old(self).installed_rules@.dom().contains(session_id@) {
                &&& final(self).installed_rules@.dom() == old(self).installed_rules@.dom()
                &&& rules_of(*final(self), session_id@) == drop_named(rules_of(*old(self), session_id@), rule_name@)
                &&& forall|k: Seq<char>| k != session_id@ && #[trigger] old(self).installed_rules@.dom().contains(k)
                    ==> final(self).installed_rules@[k] == old(self).installed_rules@[k]
                &&& r == exists|i: int| 0 <= i < rules_of(*old(self), session_id@).len()
                    && (#[trigger] rules_of(*old(self), session_id@)[i]).name == rule_name@
            } else {
                &&& final(self).installed_rules@ == old(self).installed_rules@
                &&& !r
            },
    {
        match self.installed_rules.remove(session_id) {
            Some(mut rules) => {
                let initial = rules.len();
                retain_other(&mut rules, rule_name);
                let removed = rules.len() < initial;
                proof {
                    let rs = rules_of(*old(self), session_id@);
                    lemma_drop_named_len(rs, rule_name@);
                    assert(rs.len() == initial);
                    assert(rules_view(rules@).len() == rules@.len());
                    assert(removed == (drop_named(rs, rule_name@).len() < rs.len()));
                    if !removed {
                        assert(forall|i: int| 0 <= i < rs.len() ==> (#[trigger] rs[i]).name != rule_name@);
                    }
                    if removed {
                        assert(!(forall|i: int| 0 <= i < rs.len() ==> (#[trigger] rs[i]).name != rule_name@));
                        let i = choose|i: int| !(0 <= i < rs.len() ==> (#[trigger] rs[i]).name != rule_name@);
                        assert(rs[i].name == rule_name@);
                    }
                }
                self.installed_rules.insert(owned(session_id), rules);
                assert(self.installed_rules@.dom() =~= old(self).installed_rules@.dom());
                removed
            },
            None => {
                assert(self.installed_rules@ =~= old(self).installed_rules@);
                false
            },
        }
    }

    /// Ends a session: its rules go, and `true` when it was bound.
    pub fn handle_session_termination(&mut self, session_id: &str) -> (r: bool)
        requires
            pcef_wf(*old(self)),
        ensures
            pcef_wf(*final(self)),
            final(self).installed_rules@ == old(self).installed_rules@.remove(session_id@),
            final(self).active_sessions@ == old(self).active_sessions@.remove(session_id@),
            r == old(self).active_sessions@.dom().contains(session_id@),
            final(self).pcrf_realm == old(self).pcrf_realm,
            final(self).total_enforced_bytes == old(self).total_enforced_bytes,
    {
        self.installed_rules.remove(session_id);
        self.active_sessions.remove(session_id).is_some()
    }
}

proof fn lemma_first_passing(rs: Seq<PccRuleModel>, flow: Seq<char>, i: int)
    requires
        0 <= i <= rs.len(),
        forall|k: int| 0 <= k < i ==> !rule_passes(#[trigger] rs[k], flow),
    ensures
        i < rs.len() && rule_passes(rs[i], flow) ==> first_passing(rs, flow) == Some(i),
        i == rs.len() ==> first_passing(rs, flow) is None,
    decreases i,
{
    if i > 0 {
        let t = rs.skip(1);
        assert forall|k: int| 0 <= k < i - 1 implies !rule_passes(#[trigger] t[k], flow) by {
            assert(t[k] == rs[k + 1]);
        }
        if i < rs.len() {
            assert(t[i - 1] == rs[i]);
        }
        lemma_first_passing(t, flow, i - 1);
        assert(!rule_passes(rs[0], flow));
    }
}

/// Whether one of the descriptions of `r` covers the flow.
fn rule_covers(r: &PccRule, flow: &str) -> (b: bool)
    ensures
        b == (exists|j: int| 0 <= j < r@.flows.len() && flow_covers(#[trigger] r@.flows[j], flow@)),
{
    let any = "any to any";
    proof {
        reveal_strlit("any to any");
    }
    let mut j: usize = 0;
    while j < r.flow_descriptions.len()
        invariant
            j <= r.flow_descriptions@.len(),
            any@ == "any to any"@,
            forall|k: int| 0 <= k < j ==> !flow_covers(#[trigger] r@.flows[k], flow@),
        decreases r.flow_descriptions@.len() - j,
    {
        let fd = r.flow_descriptions[j].as_str();
        assert(r@.flows[j as int] == fd@);
        if contains_bytes(fd.as_bytes(), any.as_bytes()) || contains_bytes(flow.as_bytes(), fd.as_bytes())
            || contains_bytes(fd.as_bytes(), flow.as_bytes()) {
            return true;
        }
        j = j + 1;
    }
    false
}

impl PcefGxEngine {
    /// Answers a re-auth request: for a bound session, removes the named rules and then
    /// installs the given ones, in order, and answers success; for another session,
    /// answers DIAMETER_UNKNOWN_SESSION_ID and changes nothing.
    pub fn handle_rar(&mut self, rar: &GxReAuthRequest, local_host: &str, local_realm: &str) -> (r: GxReAuthAnswer)
        requires
            pcef_wf(*old(self)),
        ensures
            pcef_wf(*final(self)),
            r.session_id@ == rar.session_id@,
            r.origin_host@ == local_host@,
            r.origin_realm@ == local_realm@,
            final(self).active_sessions == old(self).active_sessions,
            final(self).pcrf_realm == old(self).pcrf_realm,
            final(self).total_enforced_bytes == old(self).total_enforced_bytes,
            if !old(self).active_sessions@.dom().contains(rar.session_id@) {
                r.result_code == DIAMETER_UNKNOWN_SESSION_ID && final(self).installed_rules@ == old(self).installed_rules@
            } else {
                &&& r.result_code == DIAMETER_SUCCESS
                &&& if old(self).installed_rules@.dom().contains(rar.session_id@) {
                    &&& final(self).installed_rules@.dom() == old(self).installed_rules@.dom()
                    &&& rules_of(*final(self), rar.session_id@) == install_all(
                        drop_all(rules_of(*old(self), rar.session_id@), strings_view(rar.rules_to_remove@)),
                        rules_view(rar.rules_to_install@),
                    )
                    &&& forall|k: Seq<char>| k != rar.session_id@ && #[trigger] old(self).installed_rules@.dom().contains(k)
                        ==> final(self).installed_rules@[k] == old(self).installed_rules@[k]
                } else {
                    final(self).installed_rules@ == old(self).installed_rules@
                }
            },
    {
        if !self.active_sessions.contains_key(rar.session_id.as_str()) {
            return GxReAuthAnswer {
                session_id: rar.session_id.clone(),
                result_code: DIAMETER_UNKNOWN_SESSION_ID,
                origin_host: owned(local_host),
                origin_realm: owned(local_realm),
            };
        }
        let ghost sid = rar.session_id@;
        let ghost had = old(self).installed_rules@.dom().contains(sid);
        let ghost names = strings_view(rar.rules_to_remove@);
        let ghost news = rules_view(rar.rules_to_install@);
        let mut i: usize = 0;
        assert(names.take(0) =~= Seq::<Seq<char>>::empty());
        while i < rar.rules_to_remove.len()
            invariant
                i <= rar.rules_to_remove@.len(),
                names == strings_view(rar.rules_to_remove@),
                sid == rar.session_id@,
                pcef_wf(*self),
                self.active_sessions == old(self).active_sessions,
                self.pcrf_realm == old(self).pcrf_realm,
                self.total_enforced_bytes == old(self).total_enforced_bytes,
                had == old(self).installed_rules@.dom().contains(sid),
                had ==> self.installed_rules@.dom() == old(self).installed_rules@.dom()
                    && rules_of(*self, sid) == drop_all(rules_of(*old(self), sid), names.take(i as int))
                    && forall|k: Seq<char>| k != sid && #[trigger] old(self).installed_rules@.dom().contains(k)
                        ==> self.installed_rules@[k] == old(self).installed_rules@[k],
                !had ==> self.installed_rules@ == old(self).installed_rules@,
            decreases rar.rules_to_remove@.len() - i,
        {
            let ghost before = *self;
            self.remove_rule(rar.session_id.as_str(), rar.rules_to_remove[i].as_str());
            proof {
                assert(names.take(i + 1).drop_last() =~= names.take(i as int));
                assert(names.take(i + 1).last() == rar.rules_to_remove@[i as int]@);
                if had {
                    assert(before.installed_rules@.dom().contains(sid));
                } else {
                    assert(!before.installed_rules@.dom().contains(rar.session_id@));
                    assert(self.installed_rules@ == before.installed_rules@);
                }
            }
            i = i + 1;
        }
        assert(names.take(i as int) =~= names);
        let ghost mid = rules_of(*self, sid);
        let mut j: usize = 0;
        assert(news.take(0) =~= Seq::<PccRuleModel>::empty());
        while j < rar.rules_to_install.len()
            invariant
                j <= rar.rules_to_install@.len(),
                news == rules_view(rar.rules_to_install@),
                sid == rar.session_id@,
                names == strings_view(rar.rules_to_remove@),
                pcef_wf(*self),
                self.active_sessions == old(self).active_sessions,
                self.pcrf_realm == old(self).pcrf_realm,
                self.total_enforced_bytes == old(self).total_enforced_bytes,
                had == old(self).installed_rules@.dom().contains(sid),
                had ==> mid == drop_all(rules_of(*old(self), sid), names),
                had ==> self.installed_rules@.dom() == old(self).installed_rules@.dom()
                    && rules_of(*self, sid) == install_all(mid, news.take(j as int))
                    && forall|k: Seq<char>| k != sid && #[trigger] old(self).installed_rules@.dom().contains(k)
                        ==> self.installed_rules@[k] == old(self).installed_rules@[k],
                !had ==> self.installed_rules@ == old(self).installed_rules@,
            decreases rar.rules_to_install@.len() - j,
        {
            let c = copy_rule(&rar.rules_to_install[j]);
            let ghost before = *self;
            self.install_rule(rar.session_id.as_str(), c);
            proof {
                assert(news.take(j + 1).drop_last() =~= news.take(j as int));
                assert(news.take(j + 1).last() == rar.rules_to_install@[j as int]@);
                if had {
                    assert(before.installed_rules@.dom().contains(sid));
                }
            }
            j = j + 1;
        }
        assert(news.take(j as int) =~= news);
        GxReAuthAnswer {
            session_id: rar.session_id.clone(),
            result_code: DIAMETER_SUCCESS,
            origin_host: owned(local_host),
            origin_realm: owned(local_realm),
        }
    }

    /// Finds the first installed rule of the session whose gate is open and one of whose
    /// descriptions covers the flow (see `flow_covers`); counts the octets against it and
    /// returns a copy of it.
    pub fn enforce_traffic(&mut self, session_id: &str, flow_str: &str, byte_len: u64) -> (r: Option<PccRule>)
        requires
            pcef_wf(*old(self)),
            old(self).installed_rules@.dom().contains(session_id@)
                && first_passing(rules_of(*old(self), session_id@), flow_str@) is Some
                ==> old(self).total_enforced_bytes + byte_len <= u64::MAX,
        ensures
            final(self).active_sessions == old(self).active_sessions,
            final(self).installed_rules == old(self).installed_rules,
            final(self).pcrf_realm == old(self).pcrf_realm,
            if old(self).installed_rules@.dom().contains(session_id@) {
                match first_passing(rules_of(*old(self), session_id@), flow_str@) {
                    Some(i) => r matches Some(x) && x@ == rules_of(*old(self), session_id@)[i]
                        && final(self).total_enforced_bytes == old(self).total_enforced_bytes + byte_len,
                    None => r is None && final(self).total_enforced_bytes == old(self).total_enforced_bytes,
                }
            } else {
                r is None && final(self).total_enforced_bytes == old(self).total_enforced_bytes
            },
    {
        let rules = match self.installed_rules.get(session_id) {
            Some(rs) => rs,
            None => return None,
        };
        let ghost rs = rules_view(rules@);
        let mut i: usize = 0;
        while i < rules.len()
            invariant
                i <= rules@.len(),
                rs == rules_view(rules@),
                rs == rules_of(*old(self), session_id@),
                *self == *old(self),
                rules@ == old(self).installed_rules@[session_id@]@,
                old(self).installed_rules@.dom().contains(session_id@),
                first_passing(rs, flow_str@) is Some ==> old(self).total_enforced_bytes + byte_len <= u64::MAX,
                forall|k: int| 0 <= k < i ==> !rule_passes(#[trigger] rs[k], flow_str@),
            decreases rules@.len() - i,
        {
            let rule = &rules[i];
            assert(rs[i as int] == rule@);
            if rule.gate_enabled && rule_covers(rule, flow_str) {
                proof {
                    lemma_first_passing(rs, flow_str@, i as int);
                }
                let c = copy_rule(rule);
                self.total_enforced_bytes = self.total_enforced_bytes + byte_len;
                return Some(c);
            }
            i = i + 1;
        }
        proof {
            lemma_first_passing(rs, flow_str@, i as int);
        }
        None
    }
}

#[derive(Debug, Clone)]
pub struct GxSessionState {
    pub subscriber_id: String,
    pub ip_can_type: IpCanType,
    pub active_rules: Vec<PccRule>,
}

#[derive(Debug, Clone)]
pub struct PcrfGxEngine {
    pub pcrf_host: String,
    pub pcrf_realm: String,
    pub sessions: StrTable<GxSessionState>,
}

impl PcrfGxEngine {
    pub fn new(pcrf_host: &str, pcrf_realm: &str) -> (r: Self)
        ensures
            r.sessions.wf(),
            r.pcrf_host@ == pcrf_host@,
            r.pcrf_realm@ == pcrf_realm@,
            r.sessions@ == Map::<Seq<char>, GxSessionState>::empty(),
    {
        PcrfGxEngine { pcrf_host: owned(pcrf_host), pcrf_realm: owned(pcrf_realm), sessions: StrTable::new() }
    }

    /// Registers the session of an initial request with the default rules of its access
    /// and answers with them; the rules are returned too.
    pub fn handle_ccr_initial(&mut self, ccr: &GxCreditControlRequest) -> (r: (DiameterMessage, Vec<PccRule>))
        requires
            old(self).sessions.wf(),
        ensures
            final(self).sessions.wf(),
            final(self).pcrf_host == old(self).pcrf_host,
            final(self).pcrf_realm == old(self).pcrf_realm,
            final(self).sessions@.dom() == old(self).sessions@.dom().insert(ccr.session_id@),
            forall|k: Seq<char>| k != ccr.session_id@ && #[trigger] old(self).sessions@.dom().contains(k)
                ==> final(self).sessions@[k] == old(self).sessions@[k],
            final(self).sessions@[ccr.session_id@].subscriber_id@ == ccr.subscription_id@,
            final(self).sessions@[ccr.session_id@].ip_can_type == ccr.ip_can_type,
            rules_view(final(self).sessions@[ccr.session_id@].active_rules@) == default_rules(ccr.ip_can_type),
            rules_view(r.1@) == default_rules(ccr.ip_can_type),
            r.0.header == gx_answer_header(DIAMETER_CMD_CC, 1, 1),
            r.0@.avps == seq![
                text_avp_of(263, ccr.session_id@),
                mandatory_avp(268, u32_bytes(DIAMETER_SUCCESS)),
                mandatory_avp(416, u32_bytes(1)),
                mandatory_avp(415, u32_bytes(ccr.cc_request_number)),
            ] + default_rules(ccr.ip_can_type).map_values(|x: PccRuleModel| install_avp(x)),
    {
        let default_rules_v = build_default_rules(ccr.ip_can_type);
        let state_rules = build_default_rules(ccr.ip_can_type);
        self.sessions.insert(
            ccr.session_id.clone(),
            GxSessionState {
                subscriber_id: ccr.subscription_id.clone(),
                ip_can_type: ccr.ip_can_type,
                active_rules: state_rules,
            },
        );
        assert(self.sessions@.dom() =~= old(self).sessions@.dom().insert(ccr.session_id@));
        let mut cca = DiameterMessage::new_answer(DIAMETER_CMD_CC, DIAMETER_APPLICATION_GX, 1, 1);
        cca.add_avp(DiameterAvp::new_utf8(263, ccr.session_id.as_str()));
        cca.add_avp(DiameterAvp::new_u32(268, DIAMETER_SUCCESS));
        cca.add_avp(DiameterAvp::new_u32(416, CcRequestType::InitialRequest.as_u32()));
        cca.add_avp(DiameterAvp::new_u32(415, ccr.cc_request_number));
        assert(cca@.avps =~= seq![
            text_avp_of(263, ccr.session_id@),
            mandatory_avp(268, u32_bytes(DIAMETER_SUCCESS)),
            mandatory_avp(416, u32_bytes(1)),
            mandatory_avp(415, u32_bytes(ccr.cc_request_number)),
        ]);
        add_installs(&mut cca, &default_rules_v);
        (cca, default_rules_v)
    }

    /// Updates the session's rules (removals, then installations, in order) and builds
    /// the re-auth request that carries them to the PCEF; `None` for an unknown session.
    pub fn push_rar(
        &mut self,
        session_id: &str,
        pcef_host: &str,
        pcef_realm: &str,
        install: Vec<PccRule>,
        remove: Vec<String>,
    ) -> (r: Option<GxReAuthRequest>)
        requires
            old(self).sessions.wf(),
        ensures
            final(self).sessions.wf(),
            final(self).pcrf_host == old(self).pcrf_host,
            final(self).pcrf_realm == old(self).pcrf_realm,
            if !old(self).sessions@.dom().contains(session_id@) {
                r is None && final(self).sessions@ == old(self).sessions@
            } else {
                let st = old(self).sessions@[session_id@];
                &&& final(self).sessions@.dom() == old(self).sessions@.dom()
                &&& forall|k: Seq<char>| k != session_id@ && #[trigger] old(self).sessions@.dom().contains(k)
                    ==> final(self).sessions@[k] == old(self).sessions@[k]
                &&& final(self).sessions@[session_id@].subscriber_id == st.subscriber_id
                &&& final(self).sessions@[session_id@].ip_can_type == st.ip_can_type
                &&& rules_view(final(self).sessions@[session_id@].active_rules@) == install_all(
                    drop_all(rules_view(st.active_rules@), strings_view(remove@)),
                    rules_view(install@),
                )
                &&& r matches Some(q) && q.session_id@ == session_id@ && q.origin_host@ == old(self).pcrf_host@
                    && q.origin_realm@ == old(self).pcrf_realm@ && q.destination_host@ == pcef_host@
                    && q.destination_realm@ == pcef_realm@ && rules_view(q.rules_to_install@) == rules_view(install@)
                    && strings_view(q.rules_to_remove@) == strings_view(remove@) && q.event_triggers@.len() == 0
            },
    {
        let mut st = match self.sessions.remove(session_id) {
            Some(s) => s,
            None => {
                assert(self.sessions@ =~= old(self).sessions@);
                return None;
            },
        };
        let ghost names = strings_view(remove@);
        let ghost news = rules_view(install@);
        let ghost start = rules_view(st.active_rules@);
        let ghost st0 = st;
        let mut i: usize = 0;
        assert(names.take(0) =~= Seq::<Seq<char>>::empty());
        while i < remove.len()
            invariant
                i <= remove@.len(),
                names == strings_view(remove@),
                rules_view(st.active_rules@) == drop_all(start, names.take(i as int)),
                st.subscriber_id == st0.subscriber_id,
                st.ip_can_type == st0.ip_can_type,
            decreases remove@.len() - i,
        {
            retain_other(&mut st.active_rules, remove[i].as_str());
            proof {
                assert(names.take(i + 1).drop_last() =~= names.take(i as int));
                assert(names.take(i + 1).last() == remove@[i as int]@);
            }
            i = i + 1;
        }
        assert(names.take(i as int) =~= names);
        let ghost mid = rules_view(st.active_rules@);
        let mut j: usize = 0;
        assert(news.take(0) =~= Seq::<PccRuleModel>::empty());
        while j < install.len()
            invariant
                j <= install@.len(),
                news == rules_view(install@),
                rules_view(st.active_rules@) == install_all(mid, news.take(j as int)),
                mid == drop_all(start, names),
                st.subscriber_id == st0.subscriber_id,
                st.ip_can_type == st0.ip_can_type,
            decreases install@.len() - j,
        {
            let c = copy_rule(&install[j]);
            install_into(&mut st.active_rules, c);
            proof {
                assert(news.take(j + 1).drop_last() =~= news.take(j as int));
                assert(news.take(j + 1).last() == install@[j as int]@);
            }
            j = j + 1;
        }
        assert(news.take(j as int) =~= news);
        self.sessions.insert(owned(session_id), st);
        assert(self.sessions@.dom() =~= old(self).sessions@.dom());
        Some(GxReAuthRequest {
            session_id: owned(session_id),
            origin_host: self.pcrf_host.clone(),
            origin_realm: self.pcrf_realm.clone(),
            destination_host: owned(pcef_host),
            destination_realm: owned(pcef_realm),
            rules_to_install: install,
            rules_to_remove: remove,
            event_triggers: Vec::new(),
        })
    }

    /// Ends a session; `true` when it was registered.
    pub fn terminate_session(&mut self, session_id: &str) -> (r: bool)
        requires
            old(self).sessions.wf(),
        ensures
            final(self).sessions.wf(),
            final(self).sessions@ == old(self).sessions@.remove(session_id@),
            r == old(self).sessions@.dom().contains(session_id@),
            final(self).pcrf_host == old(self).pcrf_host,
            final(self).pcrf_realm == old(self).pcrf_realm,
    {
        self.sessions.remove(session_id).is_some()
    }

    /// The number of sessions.
    pub fn active_session_count(&self) -> (r: usize)
        requires
            self.sessions.wf(),
        ensures
            r == self.sessions@.dom().len(),
    {
        proof {
            self.sessions.lemma_len();
        }
        self.sessions.len()
    }
}


/// Law: a flow is enforced by an open rule that has a description covering it, where a
/// description covers a flow when it holds "any to any", when the flow holds it, or when it
/// holds the flow (octet substrings). Whenever some open rule has such a description, the
/// rules pass the flow, and the first that does comes no later than that rule, is open,
/// and has such a description.
pub proof fn lemma_containing_rule_passes(rs: Seq<PccRuleModel>, flow: Seq<char>, k: int, j: int)
    requires
        0 <= k < rs.len(),
        rs[k].gate,
        0 <= j < rs[k].flows.len(),
        has_sub(encode_utf8(rs[k].flows[j]), encode_utf8("any to any"@)) || has_sub(encode_utf8(flow), encode_utf8(rs[k].flows[j]))
            || has_sub(encode_utf8(rs[k].flows[j]), encode_utf8(flow)),
    ensures
        first_passing(rs, flow) matches Some(i) && 0 <= i <= k && rs[i].gate && exists|d: int|
            0 <= d < rs[i].flows.len() && (has_sub(encode_utf8(#[trigger] rs[i].flows[d]), encode_utf8("any to any"@))
                || has_sub(encode_utf8(flow), encode_utf8(rs[i].flows[d])) || has_sub(encode_utf8(rs[i].flows[d]), encode_utf8(flow))),
    decreases k,
{
    assert(flow_covers(rs[k].flows[j], flow));
    if rule_passes(rs[0], flow) {
        let d = choose|d: int| 0 <= d < rs[0].flows.len() && flow_covers(#[trigger] rs[0].flows[d], flow);
        assert(flow_covers(rs[0].flows[d], flow));
    } else {
        assert(k > 0) by {
            if k == 0 {
                assert(rule_passes(rs[0], flow));
            }
        }
        let t = rs.skip(1);
        assert(t[k - 1] == rs[k]);
        lemma_containing_rule_passes(t, flow, k - 1, j);
        let i = first_passing(t, flow).unwrap();
        assert(t[i] == rs[i + 1]);
        let d = choose|d: int| 0 <= d < t[i].flows.len() && (has_sub(encode_utf8(#[trigger] t[i].flows[d]), encode_utf8("any to any"@))
                || has_sub(encode_utf8(flow), encode_utf8(t[i].flows[d])) || has_sub(encode_utf8(t[i].flows[d]), encode_utf8(flow)));
        assert(rs[i + 1].flows[d] == t[i].flows[d]);
    }
}


/// Law: the rule that enforces a flow is open and has a description covering it (holding
/// "any to any", held by the flow, or holding the flow), and no earlier rule is open with
/// such a description; when no rule passes, no open rule has one.
pub proof fn lemma_passing_rule_covers(rs: Seq<PccRuleModel>, flow: Seq<char>)
    ensures
        match first_passing(rs, flow) {
            Some(i) => {
                &&& 0 <= i < rs.len()
                &&& rs[i].gate
                &&& exists|d: int| 0 <= d < rs[i].flows.len() && (has_sub(encode_utf8(#[trigger] rs[i].flows[d]), encode_utf8("any to any"@))
                    || has_sub(encode_utf8(flow), encode_utf8(rs[i].flows[d])) || has_sub(encode_utf8(rs[i].flows[d]), encode_utf8(flow)))
                &&& forall|k: int, d: int| 0 <= k < i && 0 <= d < rs[k].flows.len() && rs[k].gate ==> !(has_sub(
                    encode_utf8(#[trigger] rs[k].flows[d]),
                    encode_utf8("any to any"@),
                ) || has_sub(encode_utf8(flow), encode_utf8(rs[k].flows[d])) || has_sub(encode_utf8(rs[k].flows[d]), encode_utf8(flow)))
            },
            None => forall|k: int, d: int| 0 <= k < rs.len() && 0 <= d < rs[k].flows.len() && rs[k].gate ==> !(has_sub(
                encode_utf8(#[trigger] rs[k].flows[d]),
                encode_utf8("any to any"@),
            ) || has_sub(encode_utf8(flow), encode_utf8(rs[k].flows[d])) || has_sub(encode_utf8(rs[k].flows[d]), encode_utf8(flow))),
        },
    decreases rs.len(),
{
    if rs.len() > 0 {
        lemma_passing_rule_covers(rs.skip(1), flow);
        let t = rs.skip(1);
        if rule_passes(rs[0], flow) {
            let d = choose|d: int| 0 <= d < rs[0].flows.len() && flow_covers(#[trigger] rs[0].flows[d], flow);
            assert(flow_covers(rs[0].flows[d], flow));
        } else {
            assert forall|d: int| 0 <= d < rs[0].flows.len() && rs[0].gate implies !flow_covers(#[trigger] rs[0].flows[d], flow) by {
            }
            match first_passing(t, flow) {
                Some(i) => {
                    assert(t[i] == rs[i + 1]);
                    let d = choose|d: int| 0 <= d < t[i].flows.len() && (has_sub(encode_utf8(#[trigger] t[i].flows[d]), encode_utf8("any to any"@))
                        || has_sub(encode_utf8(flow), encode_utf8(t[i].flows[d])) || has_sub(encode_utf8(t[i].flows[d]), encode_utf8(flow)));
                    assert(rs[i + 1].flows[d] == t[i].flows[d]);
                    assert forall|k: int, d2: int| 0 <= k < i + 1 && 0 <= d2 < rs[k].flows.len() && rs[k].gate implies !(has_sub(
                        encode_utf8(#[trigger] rs[k].flows[d2]),
                        encode_utf8("any to any"@),
                    ) || has_sub(encode_utf8(flow), encode_utf8(rs[k].flows[d2])) || has_sub(encode_utf8(rs[k].flows[d2]), encode_utf8(flow))) by {
                        if k == 0 {
                            assert(!flow_covers(rs[0].flows[d2], flow));
                        } else {
                            assert(rs[k] == t[k - 1]);
                        }
                    }
                },
                None => {
                    assert forall|k: int, d2: int| 0 <= k < rs.len() && 0 <= d2 < rs[k].flows.len() && rs[k].gate implies !(has_sub(
                        encode_utf8(#[trigger] rs[k].flows[d2]),
                        encode_utf8("any to any"@),
                    ) || has_sub(encode_utf8(flow), encode_utf8(rs[k].flows[d2])) || has_sub(encode_utf8(rs[k].flows[d2]), encode_utf8(flow))) by {
                        if k == 0 {
                            assert(!flow_covers(rs[0].flows[d2], flow));
                        } else {
                            assert(rs[k] == t[k - 1]);
                        }
                    }
                },
            }
        }
    }
}

} // verus!
