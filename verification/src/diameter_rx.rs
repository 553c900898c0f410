//! Diameter Rx (application function to PCRF): media component descriptions with their
//! sub-components and flows, AA requests, and a PCRF that authorizes QoS against a
//! bandwidth budget.
use vstd::prelude::*;
use vstd::string::*;
use vstd::utf8::{decode_utf8, encode_utf8, valid_utf8};
use crate::diameter::{
    AvpModel, DiameterAvp, DiameterHeader, DiameterMessage, DIAMETER_SUCCESS, DIAMETER_FLAG_REQUEST,
    DIAMETER_FLAG_PROXIABLE, DIAMETER_VERSION_1, avp_models, avps_bytes, avps_parse, mandatory_avp,
    parse_avps, serialize_avps,
};
use crate::diameter_charging::{u32_avp, u32_value};
use crate::diameter_gx::{text_avp_of, text_or_empty, u32_or};
use crate::wire::u32_bytes;
use crate::text::{owned, strings_view};
use crate::table::StrTable;

verus! {

pub const DIAMETER_APPLICATION_RX: u32 = 16777236;
pub const DIAMETER_CMD_AA: u32 = 265;
pub const DIAMETER_CMD_SESSION_TERMINATION: u32 = 275;
pub const DIAMETER_CMD_ABORT_SESSION: u32 = 274;

pub const AVP_ABORT_CAUSE: u32 = 500;
pub const AVP_AF_APPLICATION_IDENTIFIER: u32 = 504;
pub const AVP_FLOW_DESCRIPTION: u32 = 507;
pub const AVP_FLOW_NUMBER: u32 = 509;
pub const AVP_FLOW_STATUS: u32 = 511;
pub const AVP_FLOW_USAGE: u32 = 512;
pub const AVP_SPECIFIC_ACTION: u32 = 513;
pub const AVP_MAX_REQUESTED_BANDWIDTH_DL: u32 = 515;
pub const AVP_MAX_REQUESTED_BANDWIDTH_UL: u32 = 516;
pub const AVP_MEDIA_COMPONENT_DESCRIPTION: u32 = 517;
pub const AVP_MEDIA_COMPONENT_NUMBER: u32 = 518;
pub const AVP_MEDIA_SUB_COMPONENT: u32 = 519;
pub const AVP_MEDIA_TYPE: u32 = 520;
pub const AVP_SERVICE_INFO_STATUS: u32 = 527;

/// DIAMETER_UNABLE_TO_COMPLY.
pub const DIAMETER_UNABLE_TO_COMPLY: u32 = 5012;

#[derive(Debug, Clone, Copy, PartialEq, Eq, Structural)]
pub enum MediaType {
    Audio,
    Video,
    Data,
    Application,
    Control,
    Text,
    Message,
    Other,
}

/// The Media-Type value of a type.
pub open spec fn media_code(t: MediaType) -> u32 {
    match t {
        MediaType::Audio => 0,
        MediaType::Video => 1,
        MediaType::Data => 2,
        MediaType::Application => 3,
        MediaType::Control => 4,
        MediaType::Text => 5,
        MediaType::Message => 6,
        MediaType::Other => 7,
    }
}

/// The type of a Media-Type value; values above 6 are "other".
pub open spec fn media_of(v: u32) -> MediaType {
    if v == 0 {
        MediaType::Audio
    } else if v == 1 {
        MediaType::Video
    } else if v == 2 {
        MediaType::Data
    } else if v == 3 {
        MediaType::Application
    } else if v == 4 {
        MediaType::Control
    } else if v == 5 {
        MediaType::Text
    } else if v == 6 {
        MediaType::Message
    } else {
        MediaType::Other
    }
}

impl MediaType {
    pub fn from_u32(v: u32) -> (r: Self)
        ensures
            r == media_of(v),
    {
        match v {
            0 => MediaType::Audio,
            1 => MediaType::Video,
            2 => MediaType::Data,
            3 => MediaType::Application,
            4 => MediaType::Control,
            5 => MediaType::Text,
            6 => MediaType::Message,
            _ => MediaType::Other,
        }
    }

    /// The Media-Type value.
    pub fn as_u32(self) -> (r: u32)
        ensures
            r == media_code(self),
    {
        match self {
            MediaType::Audio => 0,
            MediaType::Video => 1,
            MediaType::Data => 2,
            MediaType::Application => 3,
            MediaType::Control => 4,
            MediaType::Text => 5,
            MediaType::Message => 6,
            MediaType::Other => 7,
        }
    }
}

/// A type read back from its value is the type written.
pub proof fn lemma_media_roundtrip(t: MediaType)
    ensures
        media_of(media_code(t)) == t,
{
}

#[derive(Debug, Clone, PartialEq, Eq)]
pub struct MediaSubComponent {
    pub flow_number: u32,
    pub flow_descriptions: Vec<String>,
    pub flow_status: u32,
    pub flow_usage: u32,
}

pub struct SubModel {
    pub number: u32,
    pub flows: Seq<Seq<char>>,
    pub status: u32,
    pub usage: u32,
}

impl View for MediaSubComponent {
    type V = SubModel;

    open spec fn view(&self) -> SubModel {
        SubModel {
            number: self.flow_number,
            flows: strings_view(self.flow_descriptions@),
            status: self.flow_status,
            usage: self.flow_usage,
        }
    }
}

/// The AVPs inside a Media-Sub-Component: flow number, descriptions, status, usage.
pub open spec fn sub_inner_avps(s: SubModel) -> Seq<AvpModel> {
    seq![mandatory_avp(AVP_FLOW_NUMBER, u32_bytes(s.number))] + s.flows.map_values(
        |f: Seq<char>| text_avp_of(AVP_FLOW_DESCRIPTION, f),
    ) + seq![mandatory_avp(AVP_FLOW_STATUS, u32_bytes(s.status)), mandatory_avp(AVP_FLOW_USAGE, u32_bytes(s.usage))]
}

pub open spec fn sub_avp(s: SubModel) -> AvpModel {
    mandatory_avp(AVP_MEDIA_SUB_COMPONENT, avps_bytes(sub_inner_avps(s)))
}

/// A sub-component read from its AVPs, the later of two alike winning (flow number 1,
/// status 3 and usage 0 by default; descriptions that are not UTF-8 are left out).
pub open spec fn sub_fold(avps: Seq<AvpModel>) -> SubModel
    decreases avps.len(),
{
    if avps.len() == 0 {
        SubModel { number: 1, flows: Seq::empty(), status: 3, usage: 0 }
    } else {
        let s = sub_fold(avps.drop_last());
        let a = avps.last();
        if a.code == AVP_FLOW_NUMBER {
            SubModel { number: u32_or(a.data, 1), ..s }
        } else if a.code == AVP_FLOW_DESCRIPTION {
            if valid_utf8(a.data) { SubModel { flows: s.flows.push(decode_utf8(a.data)), ..s } } else { s }
        } else if a.code == AVP_FLOW_STATUS {
            SubModel { status: u32_or(a.data, 3), ..s }
        } else if a.code == AVP_FLOW_USAGE {
            SubModel { usage: u32_or(a.data, 0), ..s }
        } else {
            s
        }
    }
}

/// A sub-component read from the data of its AVP; `None` when an AVP is malformed.
pub open spec fn sub_parse(data: Seq<u8>) -> Option<SubModel> {
    match avps_parse(data) {
        Some(l) => Some(sub_fold(l)),
        None => None,
    }
}

impl MediaSubComponent {
    /// A sub-component with no flows, enabled, usage 0.
    pub fn new(flow_number: u32) -> (r: Self)
        ensures
            r@ == (SubModel { number: flow_number, flows: Seq::empty(), status: 3, usage: 0 }),
    {
        let r = MediaSubComponent { flow_number, flow_descriptions: Vec::new(), flow_status: 3, flow_usage: 0 };
        assert(strings_view(r.flow_descriptions@) =~= Seq::<Seq<char>>::empty());
        r
    }

    pub fn to_avp(&self) -> (r: DiameterAvp)
        ensures
            r@ == sub_avp(self@),
    {
        let mut inner: Vec<DiameterAvp> = Vec::new();
        inner.push(DiameterAvp::new_u32(AVP_FLOW_NUMBER, self.flow_number));
        let ghost head = avp_models(inner@);
        let ghost fl = self@.flows.map_values(|f: Seq<char>| text_avp_of(AVP_FLOW_DESCRIPTION, f));
        let mut i: usize = 0;
        assert(head + fl.take(0) =~= head);
        while i < self.flow_descriptions.len()
            invariant
                i <= self.flow_descriptions@.len(),
                fl == self@.flows.map_values(|f: Seq<char>| text_avp_of(AVP_FLOW_DESCRIPTION, f)),
                head == seq![mandatory_avp(AVP_FLOW_NUMBER, u32_bytes(self.flow_number))],
                avp_models(inner@) == head + fl.take(i as int),
            decreases self.flow_descriptions@.len() - i,
        {
            let a = DiameterAvp::new_utf8(AVP_FLOW_DESCRIPTION, self.flow_descriptions[i].as_str());
            let ghost before = avp_models(inner@);
            inner.push(a);
            i = i + 1;
            assert(avp_models(inner@) =~= before.push(a@));
            assert(fl.take(i as int) =~= fl.take(i - 1).push(fl[i - 1]));
        }
        assert(fl.take(i as int) =~= fl);
        let ghost mid = avp_models(inner@);
        inner.push(DiameterAvp::new_u32(AVP_FLOW_STATUS, self.flow_status));
        inner.push(DiameterAvp::new_u32(AVP_FLOW_USAGE, self.flow_usage));
        assert(avp_models(inner@) =~= sub_inner_avps(self@));
        let payload = serialize_avps(&inner);
        DiameterAvp::new(AVP_MEDIA_SUB_COMPONENT, payload.as_slice())
    }

    /// Reads a sub-component (see `sub_parse`).
    pub fn parse_avp(avp: &DiameterAvp) -> (r: Option<Self>)
        ensures
            match r {
                Some(s) => sub_parse(avp.data@) == Some(s@),
                None => sub_parse(avp.data@) is None,
            },
    {
        let list = match parse_avps(avp.data.as_slice()) {
            Some(l) => l,
            None => return None,
        };
        let ghost models = avp_models(list@);
        let mut flow_number: u32 = 1;
        let mut flows: Vec<String> = Vec::new();
        let mut flow_status: u32 = 3;
        let mut flow_usage: u32 = 0;
        let mut i: usize = 0;
        assert(models.take(0).len() == 0);
        assert(strings_view(flows@) =~= Seq::<Seq<char>>::empty());
        while i < list.len()
            invariant
                i <= list@.len(),
                models == avp_models(list@),
                avps_parse(avp.data@) == Some(models),
                sub_fold(models.take(i as int)) == (SubModel {
                    number: flow_number,
                    flows: strings_view(flows@),
                    status: flow_status,
                    usage: flow_usage,
                }),
            decreases list@.len() - i,
        {
            let c = &list[i];
            assert(models.take(i + 1).drop_last() =~= models.take(i as int));
            assert(models.take(i + 1).last() == c@);
            if c.code == AVP_FLOW_NUMBER {
                flow_number = match c.as_u32() {
                    Some(v) => v,
                    None => 1,
                };
            } else if c.code == AVP_FLOW_DESCRIPTION {
                match c.as_string() {
                    Some(s) => {
                        let ghost before = strings_view(flows@);
                        flows.push(s);
                        assert(strings_view(flows@) =~= before.push(s@));
                    },
                    None => {},
                }
            } else if c.code == AVP_FLOW_STATUS {
                flow_status = match c.as_u32() {
                    Some(v) => v,
                    None => 3,
                };
            } else if c.code == AVP_FLOW_USAGE {
                flow_usage = match c.as_u32() {
                    Some(v) => v,
                    None => 0,
                };
            }
            i = i + 1;
        }
        assert(models.take(i as int) =~= models);
        Some(MediaSubComponent { flow_number, flow_descriptions: flows, flow_status, flow_usage })
    }
}

#[derive(Debug, Clone, PartialEq, Eq)]
pub struct MediaComponentDescription {
    pub component_number: u32,
    pub media_type: MediaType,
    pub max_bandwidth_ul: u32,
    pub max_bandwidth_dl: u32,
    pub sub_components: Vec<MediaSubComponent>,
}

pub struct McModel {
    pub number: u32,
    pub media_type: MediaType,
    pub ul: u32,
    pub dl: u32,
    pub subs: Seq<SubModel>,
}

pub open spec fn subs_view(v: Seq<MediaSubComponent>) -> Seq<SubModel> {
    v.map_values(|s: MediaSubComponent| s@)
}

impl View for MediaComponentDescription {
    type V = McModel;

    open spec fn view(&self) -> McModel {
        McModel {
            number: self.component_number,
            media_type: self.media_type,
            ul: self.max_bandwidth_ul,
            dl: self.max_bandwidth_dl,
            subs: subs_view(self.sub_components@),
        }
    }
}

/// The AVPs inside a Media-Component-Description: number and type, the bandwidths that
/// are non-zero, the sub-components.
pub open spec fn mc_inner_avps(m: McModel) -> Seq<AvpModel> {
    seq![
        mandatory_avp(AVP_MEDIA_COMPONENT_NUMBER, u32_bytes(m.number)),
        mandatory_avp(AVP_MEDIA_TYPE, u32_bytes(media_code(m.media_type))),
    ] + (if m.ul > 0 {
        seq![mandatory_avp(AVP_MAX_REQUESTED_BANDWIDTH_UL, u32_bytes(m.ul))]
    } else {
        Seq::empty()
    }) + (if m.dl > 0 {
        seq![mandatory_avp(AVP_MAX_REQUESTED_BANDWIDTH_DL, u32_bytes(m.dl))]
    } else {
        Seq::empty()
    }) + m.subs.map_values(|s: SubModel| sub_avp(s))
}

pub open spec fn mc_avp(m: McModel) -> AvpModel {
    mandatory_avp(AVP_MEDIA_COMPONENT_DESCRIPTION, avps_bytes(mc_inner_avps(m)))
}

/// A media component read from its AVPs, the later of two alike winning (number 1, audio
/// and zero bandwidths by default; sub-components that do not read are left out).
pub open spec fn mc_fold(avps: Seq<AvpModel>) -> McModel
    decreases avps.len(),
{
    if avps.len() == 0 {
        McModel { number: 1, media_type: MediaType::Audio, ul: 0, dl: 0, subs: Seq::empty() }
    } else {
        let m = mc_fold(avps.drop_last());
        let a = avps.last();
        if a.code == AVP_MEDIA_COMPONENT_NUMBER {
            McModel { number: u32_or(a.data, 1), ..m }
        } else if a.code == AVP_MEDIA_TYPE {
            McModel { media_type: media_of(u32_or(a.data, 0)), ..m }
        } else if a.code == AVP_MAX_REQUESTED_BANDWIDTH_UL {
            McModel { ul: u32_or(a.data, 0), ..m }
        } else if a.code == AVP_MAX_REQUESTED_BANDWIDTH_DL {
            McModel { dl: u32_or(a.data, 0), ..m }
        } else if a.code == AVP_MEDIA_SUB_COMPONENT {
            match sub_parse(a.data) {
                Some(s) => McModel { subs: m.subs.push(s), ..m },
                None => m,
            }
        } else {
            m
        }
    }
}

/// A media component read from the data of its AVP; `None` when an AVP is malformed.
pub open spec fn mc_parse(data: Seq<u8>) -> Option<McModel> {
    match avps_parse(data) {
        Some(l) => Some(mc_fold(l)),
        None => None,
    }
}

impl MediaComponentDescription {
    /// A component with 64 kbit/s each way and no sub-components.
    pub fn new(component_number: u32, media_type: MediaType) -> (r: Self)
        ensures
            r@ == (McModel { number: component_number, media_type, ul: 64_000, dl: 64_000, subs: Seq::empty() }),
    {
        let r = MediaComponentDescription {
            component_number,
            media_type,
            max_bandwidth_ul: 64_000,
            max_bandwidth_dl: 64_000,
            sub_components: Vec::new(),
        };
        assert(subs_view(r.sub_components@) =~= Seq::<SubModel>::empty());
        r
    }

    pub fn to_avp(&self) -> (r: DiameterAvp)
        ensures
            r@ == mc_avp(self@),
    {
        let mut inner: Vec<DiameterAvp> = Vec::new();
        inner.push(DiameterAvp::new_u32(AVP_MEDIA_COMPONENT_NUMBER, self.component_number));
        inner.push(DiameterAvp::new_u32(AVP_MEDIA_TYPE, self.media_type.as_u32()));
        let ghost h0 = avp_models(inner@);
        if self.max_bandwidth_ul > 0 {
            inner.push(DiameterAvp::new_u32(AVP_MAX_REQUESTED_BANDWIDTH_UL, self.max_bandwidth_ul));
        }
        let ghost h1 = avp_models(inner@);
        assert(h1 =~= h0 + (if self.max_bandwidth_ul > 0 {
            seq![mandatory_avp(AVP_MAX_REQUESTED_BANDWIDTH_UL, u32_bytes(self.max_bandwidth_ul))]
        } else {
            Seq::<AvpModel>::empty()
        }));
        if self.max_bandwidth_dl > 0 {
            inner.push(DiameterAvp::new_u32(AVP_MAX_REQUESTED_BANDWIDTH_DL, self.max_bandwidth_dl));
        }
        let ghost head = avp_models(inner@);
        assert(head =~= h1 + (if self.max_bandwidth_dl > 0 {
            seq![mandatory_avp(AVP_MAX_REQUESTED_BANDWIDTH_DL, u32_bytes(self.max_bandwidth_dl))]
        } else {
            Seq::<AvpModel>::empty()
        }));
        let ghost sl = self@.subs.map_values(|s: SubModel| sub_avp(s));
        let mut i: usize = 0;
        assert(head + sl.take(0) =~= head);
        while i < self.sub_components.len()
            invariant
                i <= self.sub_components@.len(),
                sl == self@.subs.map_values(|s: SubModel| sub_avp(s)),
                avp_models(inner@) == head + sl.take(i as int),
            decreases self.sub_components@.len() - i,
        {
            let a = self.sub_components[i].to_avp();
            let ghost before = avp_models(inner@);
            inner.push(a);
            i = i + 1;
            assert(avp_models(inner@) =~= before.push(a@));
            assert(sl.take(i as int) =~= sl.take(i - 1).push(sl[i - 1]));
        }
        assert(sl.take(i as int) =~= sl);
        assert(avp_models(inner@) =~= mc_inner_avps(self@));
        let payload = serialize_avps(&inner);
        DiameterAvp::new(AVP_MEDIA_COMPONENT_DESCRIPTION, payload.as_slice())
    }

    /// Reads a media component (see `mc_parse`).
    pub fn parse_avp(avp: &DiameterAvp) -> (r: Option<Self>)
        ensures
            match r {
                Some(m) => mc_parse(avp.data@) == Some(m@),
                None => mc_parse(avp.data@) is None,
            },
    {
        let list = match parse_avps(avp.data.as_slice()) {
            Some(l) => l,
            None => return None,
        };
        let ghost models = avp_models(list@);
        let mut component_number: u32 = 1;
        let mut media_type = MediaType::Audio;
        let mut ul: u32 = 0;
        let mut dl: u32 = 0;
        let mut subs: Vec<MediaSubComponent> = Vec::new();
        let mut i: usize = 0;
        assert(models.take(0).len() == 0);
        assert(subs_view(subs@) =~= Seq::<SubModel>::empty());
        while i < list.len()
            invariant
                i <= list@.len(),
                models == avp_models(list@),
                avps_parse(avp.data@) == Some(models),
                mc_fold(models.take(i as int)) == (McModel {
                    number: component_number,
                    media_type,
                    ul,
                    dl,
                    subs: subs_view(subs@),
                }),
            decreases list@.len() - i,
        {
            let c = &list[i];
            assert(models.take(i + 1).drop_last() =~= models.take(i as int));
            assert(models.take(i + 1).last() == c@);
            if c.code == AVP_MEDIA_COMPONENT_NUMBER {
                component_number = match c.as_u32() {
                    Some(v) => v,
                    None => 1,
                };
            } else if c.code == AVP_MEDIA_TYPE {
                media_type = MediaType::from_u32(
                    match c.as_u32() {
                        Some(v) => v,
                        None => 0,
                    },
                );
            } else if c.code == AVP_MAX_REQUESTED_BANDWIDTH_UL {
                ul = match c.as_u32() {
                    Some(v) => v,
                    None => 0,
                };
            } else if c.code == AVP_MAX_REQUESTED_BANDWIDTH_DL {
                dl = match c.as_u32() {
                    Some(v) => v,
                    None => 0,
                };
            } else if c.code == AVP_MEDIA_SUB_COMPONENT {
                match MediaSubComponent::parse_avp(c) {
                    Some(s) => {
                        let ghost before = subs_view(subs@);
                        subs.push(s);
                        assert(subs_view(subs@) =~= before.push(s@));
                    },
                    None => {},
                }
            }
            i = i + 1;
        }
        assert(models.take(i as int) =~= models);
        Some(MediaComponentDescription {
            component_number,
            media_type,
            max_bandwidth_ul: ul,
            max_bandwidth_dl: dl,
            sub_components: subs,
        })
    }
}

#[derive(Debug, Clone, PartialEq, Eq)]
pub struct AaRequest {
    pub session_id: String,
    pub af_application_identifier: String,
    pub service_info_status: u32,
    pub media_components: Vec<MediaComponentDescription>,
}

pub open spec fn mcs_view(v: Seq<MediaComponentDescription>) -> Seq<McModel> {
    v.map_values(|m: MediaComponentDescription| m@)
}

/// The media components of a message: its component AVPs that read, in order.
pub open spec fn mcs_of(avps: Seq<AvpModel>) -> Seq<McModel>
    decreases avps.len(),
{
    if avps.len() == 0 {
        Seq::empty()
    } else {
        let rest = mcs_of(avps.drop_last());
        let a = avps.last();
        if a.code == AVP_MEDIA_COMPONENT_DESCRIPTION {
            match mc_parse(a.data) {
                Some(m) => rest.push(m),
                None => rest,
            }
        } else {
            rest
        }
    }
}

/// The header of a request or answer of this interface.
pub open spec fn rx_header(command_code: u32, flags: u8, hop_by_hop: u32, end_to_end: u32) -> DiameterHeader {
    DiameterHeader {
        version: DIAMETER_VERSION_1,
        length: 0,
        flags,
        command_code,
        application_id: DIAMETER_APPLICATION_RX,
        hop_by_hop_id: hop_by_hop,
        end_to_end_id: end_to_end,
    }
}

impl AaRequest {
    /// A request with no media components and final service information.
    pub fn new(session_id: &str, af_app_id: &str) -> (r: Self)
        ensures
            r.session_id@ == session_id@,
            r.af_application_identifier@ == af_app_id@,
            r.service_info_status == 0,
            r.media_components@.len() == 0,
    {
        AaRequest {
            session_id: owned(session_id),
            af_application_identifier: owned(af_app_id),
            service_info_status: 0,
            media_components: Vec::new(),
        }
    }

    /// The request as a message: session, AF application id, service-info status, then
    /// one AVP per media component.
    pub fn to_diameter_message(&self, hop_id: u32, end_id: u32) -> (r: DiameterMessage)
        ensures
            r.header == rx_header(DIAMETER_CMD_AA, DIAMETER_FLAG_REQUEST | DIAMETER_FLAG_PROXIABLE, hop_id, end_id),
            r@.avps == seq![
                text_avp_of(263, self.session_id@),
                text_avp_of(AVP_AF_APPLICATION_IDENTIFIER, self.af_application_identifier@),
                mandatory_avp(AVP_SERVICE_INFO_STATUS, u32_bytes(self.service_info_status)),
            ] + mcs_view(self.media_components@).map_values(|m: McModel| mc_avp(m)),
    {
        let mut msg = DiameterMessage::new_request(DIAMETER_CMD_AA, DIAMETER_APPLICATION_RX, hop_id, end_id);
        msg.add_avp(DiameterAvp::new_utf8(263, self.session_id.as_str()));
        msg.add_avp(DiameterAvp::new_utf8(AVP_AF_APPLICATION_IDENTIFIER, self.af_application_identifier.as_str()));
        msg.add_avp(DiameterAvp::new_u32(AVP_SERVICE_INFO_STATUS, self.service_info_status));
        let ghost head = msg@.avps;
        let ghost ml = mcs_view(self.media_components@).map_values(|m: McModel| mc_avp(m));
        let mut i: usize = 0;
        assert(head + ml.take(0) =~= head);
        while i < self.media_components.len()
            invariant
                i <= self.media_components@.len(),
                ml == mcs_view(self.media_components@).map_values(|m: McModel| mc_avp(m)),
                msg.header == rx_header(DIAMETER_CMD_AA, DIAMETER_FLAG_REQUEST | DIAMETER_FLAG_PROXIABLE, hop_id, end_id),
                msg@.avps == head + ml.take(i as int),
            decreases self.media_components@.len() - i,
        {
            let a = self.media_components[i].to_avp();
            msg.add_avp(a);
            i = i + 1;
            assert(ml.take(i as int) =~= ml.take(i - 1).push(ml[i - 1]));
        }
        assert(ml.take(i as int) =~= ml);
        msg
    }

    /// Reads a request: session and AF application id default to empty text, the status to
    /// 0; media components that do not read are left out.
    pub fn from_diameter_message(msg: &DiameterMessage) -> (r: Option<Self>)
        ensures
            r matches Some(q) && q.session_id@ == text_or_empty(msg@.avps, 263)
                && q.af_application_identifier@ == text_or_empty(msg@.avps, AVP_AF_APPLICATION_IDENTIFIER)
                && q.service_info_status == (match u32_avp(msg@.avps, AVP_SERVICE_INFO_STATUS) {
                    Some(v) => v,
                    None => 0,
                }) && mcs_view(q.media_components@) == mcs_of(msg@.avps),
    {
        let session_id = crate::diameter_gx::text_or_default(msg, 263);
        let af_app_id = crate::diameter_gx::text_or_default(msg, AVP_AF_APPLICATION_IDENTIFIER);
        let service_info_status = match msg.get_avp(AVP_SERVICE_INFO_STATUS) {
            Some(a) => match a.as_u32() {
                Some(v) => v,
                None => 0,
            },
            None => 0,
        };
        let ghost models = msg@.avps;
        let mut mcs: Vec<MediaComponentDescription> = Vec::new();
        let mut i: usize = 0;
        assert(models.take(0).len() == 0);
        assert(mcs_view(mcs@) =~= Seq::<McModel>::empty());
        while i < msg.avps.len()
            invariant
                i <= msg.avps@.len(),
                models == msg@.avps,
                models == avp_models(msg.avps@),
                mcs_view(mcs@) == mcs_of(models.take(i as int)),
            decreases msg.avps@.len() - i,
        {
            let avp = &msg.avps[i];
            assert(models.take(i + 1).drop_last() =~= models.take(i as int));
            assert(models.take(i + 1).last() == avp@);
            if avp.code == AVP_MEDIA_COMPONENT_DESCRIPTION {
                match MediaComponentDescription::parse_avp(avp) {
                    Some(m) => {
                        let ghost before = mcs_view(mcs@);
                        mcs.push(m);
                        assert(mcs_view(mcs@) =~= before.push(m@));
                    },
                    None => {},
                }
            }
            i = i + 1;
        }
        assert(models.take(i as int) =~= models);
        Some(AaRequest {
            session_id,
            af_application_identifier: af_app_id,
            service_info_status,
            media_components: mcs,
        })
    }
}

#[derive(Debug, Clone)]
pub struct PcrfSessionState {
    pub session_id: String,
    pub af_application_identifier: String,
    pub authorized_qci: u8,
    pub granted_bandwidth_ul_bps: u32,
    pub granted_bandwidth_dl_bps: u32,
    pub is_active: bool,
}

#[derive(Debug, Clone)]
pub struct PcrfRxEngine {
    pub total_capacity_bps: u64,
    pub allocated_bandwidth_bps: u64,
    pub sessions: StrTable<PcrfSessionState>,
}

/// The uplink bandwidth requested by all components.
pub open spec fn sum_ul(ms: Seq<McModel>) -> int
    decreases ms.len(),
{
    if ms.len() == 0 { 0 } else { sum_ul(ms.drop_last()) + ms.last().ul }
}

/// The downlink bandwidth requested by all components.
pub open spec fn sum_dl(ms: Seq<McModel>) -> int
    decreases ms.len(),
{
    if ms.len() == 0 { 0 } else { sum_dl(ms.drop_last()) + ms.last().dl }
}

/// The QCI authorized for the components: 1 with audio, else 2 with video, else 5 with
/// control, else 9.
pub open spec fn qci_for(ms: Seq<McModel>) -> u8
    decreases ms.len(),
{
    if ms.len() == 0 {
        9
    } else {
        let q = qci_for(ms.drop_last());
        let cap: u8 = match ms.last().media_type {
            MediaType::Audio => 1,
            MediaType::Video => 2,
            MediaType::Control => 5,
            _ => 9,
        };
        if cap < q { cap } else { q }
    }
}

proof fn lemma_sums_mono(ms: Seq<McModel>, i: int)
    requires
        0 <= i <= ms.len(),
    ensures
        0 <= sum_ul(ms.take(i)) <= sum_ul(ms),
        0 <= sum_dl(ms.take(i)) <= sum_dl(ms),
    decreases ms.len() - i,
{
    if i < ms.len() {
        lemma_sums_mono(ms, i + 1);
        assert(ms.take(i + 1).drop_last() =~= ms.take(i));
    } else {
        assert(ms.take(i) =~= ms);
    }
    lemma_sums_nonneg(ms.take(i));
}

proof fn lemma_sums_nonneg(ms: Seq<McModel>)
    ensures
        sum_ul(ms) >= 0,
        sum_dl(ms) >= 0,
    decreases ms.len(),
{
    if ms.len() > 0 {
        lemma_sums_nonneg(ms.drop_last());
    }
}

/// The bandwidth a session holds.
pub open spec fn session_bw(s: PcrfSessionState) -> int {
    s.granted_bandwidth_ul_bps + s.granted_bandwidth_dl_bps
}

/// The bandwidth held by the request's session, if any.
pub open spec fn current_bw(e: PcrfRxEngine, sid: Seq<char>) -> int {
    if e.sessions@.dom().contains(sid) { session_bw(e.sessions@[sid]) } else { 0 }
}

/// The allocation after an authorization of `req` that is granted: the request's
/// components replace what its session held.
pub open spec fn aar_after(e: PcrfRxEngine, req: &AaRequest) -> int {
    let ms = mcs_view(req.media_components@);
    e.allocated_bandwidth_bps - current_bw(e, req.session_id@) + sum_ul(ms) + sum_dl(ms)
}

/// The allocation once `bw` is given back, not below zero.
pub open spec fn released(allocated: int, bw: int) -> int {
    if allocated > bw { allocated - bw } else { 0 }
}

impl PcrfRxEngine {
    pub fn new(total_capacity_bps: u64) -> (r: Self)
        ensures
            r.sessions.wf(),
            r.total_capacity_bps == total_capacity_bps,
            r.allocated_bandwidth_bps == 0,
            r.sessions@ == Map::<Seq<char>, PcrfSessionState>::empty(),
    {
        PcrfRxEngine { total_capacity_bps, allocated_bandwidth_bps: 0, sessions: StrTable::new() }
    }

    /// Authorizes an AA request: the bandwidth of all its components (in place of what
    /// its session held) must fit the capacity; then the session is granted it, with the
    /// QCI of its most demanding medium, and the answer carries that QCI. Otherwise the
    /// answer is DIAMETER_UNABLE_TO_COMPLY and nothing changes.
    pub fn process_aar(&mut self, req: &AaRequest) -> (r: DiameterMessage)
        requires
            old(self).sessions.wf(),
            sum_ul(mcs_view(req.media_components@)) <= u32::MAX,
            sum_dl(mcs_view(req.media_components@)) <= u32::MAX,
            current_bw(*old(self), req.session_id@) <= old(self).allocated_bandwidth_bps,
        ensures
            final(self).sessions.wf(),
            final(self).total_capacity_bps == old(self).total_capacity_bps,
            r.header == rx_header(DIAMETER_CMD_AA, DIAMETER_FLAG_PROXIABLE, 0, 0),
            ({
                let ms = mcs_view(req.media_components@);
                let after = aar_after(*old(self), req);
                let q = qci_for(ms);
                if after > old(self).total_capacity_bps {
                    &&& r@.avps == seq![text_avp_of(263, req.session_id@), mandatory_avp(268, u32_bytes(DIAMETER_UNABLE_TO_COMPLY))]
                    &&& final(self).allocated_bandwidth_bps == old(self).allocated_bandwidth_bps
                    &&& final(self).sessions@ == old(self).sessions@
                } else {
                    &&& r@.avps == seq![
                        text_avp_of(263, req.session_id@),
                        mandatory_avp(268, u32_bytes(DIAMETER_SUCCESS)),
                        mandatory_avp(AVP_SPECIFIC_ACTION, u32_bytes(q as u32)),
                    ]
                    &&& final(self).allocated_bandwidth_bps == after
                    &&& final(self).sessions@ == old(self).sessions@.insert(req.session_id@, final(self).sessions@[req.session_id@])
                    &&& final(self).sessions@.dom() == old(self).sessions@.dom().insert(req.session_id@)
                    &&& forall|k: Seq<char>| k != req.session_id@ && #[trigger] old(self).sessions@.dom().contains(k)
                        ==> final(self).sessions@[k] == old(self).sessions@[k]
                    &&& ({
                        let s = final(self).sessions@[req.session_id@];
                        &&& s.session_id@ == req.session_id@
                        &&& s.af_application_identifier@ == req.af_application_identifier@
                        &&& s.authorized_qci == q
                        &&& s.granted_bandwidth_ul_bps == sum_ul(ms)
                        &&& s.granted_bandwidth_dl_bps == sum_dl(ms)
                        &&& s.is_active
                    })
                }
            }),
    {
        let ghost ms = mcs_view(req.media_components@);
        let mut total_ul: u32 = 0;
        let mut total_dl: u32 = 0;
        let mut highest_qci: u8 = 9;
        let mut i: usize = 0;
        assert(ms.take(0).len() == 0);
        while i < req.media_components.len()
            invariant
                i <= req.media_components@.len(),
                ms == mcs_view(req.media_components@),
                sum_ul(ms) <= u32::MAX,
                sum_dl(ms) <= u32::MAX,
                total_ul == sum_ul(ms.take(i as int)),
                total_dl == sum_dl(ms.take(i as int)),
                highest_qci == qci_for(ms.take(i as int)),
            decreases req.media_components@.len() - i,
        {
            let mc = &req.media_components[i];
            proof {
                assert(ms.take(i + 1).drop_last() =~= ms.take(i as int));
                assert(ms.take(i + 1).last() == mc@);
                lemma_sums_mono(ms, i + 1);
            }
            total_ul = total_ul + mc.max_bandwidth_ul;
            total_dl = total_dl + mc.max_bandwidth_dl;
            match mc.media_type {
                MediaType::Audio => {
                    if highest_qci > 1 {
                        highest_qci = 1;
                    }
                },
                MediaType::Video => {
                    if highest_qci > 2 {
                        highest_qci = 2;
                    }
                },
                MediaType::Control => {
                    if highest_qci > 5 {
                        highest_qci = 5;
                    }
                },
                _ => {},
            }
            i = i + 1;
        }
        assert(ms.take(i as int) =~= ms);
        let needed_bw: u64 = (total_ul as u64) + (total_dl as u64);
        let current: u64 = match self.sessions.get(req.session_id.as_str()) {
            Some(s) => (s.granted_bandwidth_ul_bps as u64) + (s.granted_bandwidth_dl_bps as u64),
            None => 0,
        };
        let base = self.allocated_bandwidth_bps - current;
        if base > self.total_capacity_bps || needed_bw > self.total_capacity_bps - base {
            let mut ans = DiameterMessage::new_answer(DIAMETER_CMD_AA, DIAMETER_APPLICATION_RX, 0, 0);
            ans.add_avp(DiameterAvp::new_utf8(263, req.session_id.as_str()));
            ans.add_avp(DiameterAvp::new_u32(268, DIAMETER_UNABLE_TO_COMPLY));
            assert(ans@.avps =~= seq![text_avp_of(263, req.session_id@), mandatory_avp(268, u32_bytes(DIAMETER_UNABLE_TO_COMPLY))]);
            return ans;
        }
        self.allocated_bandwidth_bps = base + needed_bw;
        self.sessions.insert(
            req.session_id.clone(),
            PcrfSessionState {
                session_id: req.session_id.clone(),
                af_application_identifier: req.af_application_identifier.clone(),
                authorized_qci: highest_qci,
                granted_bandwidth_ul_bps: total_ul,
                granted_bandwidth_dl_bps: total_dl,
                is_active: true,
            },
        );
        assert(self.sessions@.dom() =~= old(self).sessions@.dom().insert(req.session_id@));
        let mut ans = DiameterMessage::new_answer(DIAMETER_CMD_AA, DIAMETER_APPLICATION_RX, 0, 0);
        ans.add_avp(DiameterAvp::new_utf8(263, req.session_id.as_str()));
        ans.add_avp(DiameterAvp::new_u32(268, DIAMETER_SUCCESS));
        ans.add_avp(DiameterAvp::new_u32(AVP_SPECIFIC_ACTION, highest_qci as u32));
        assert(ans@.avps =~= seq![
            text_avp_of(263, req.session_id@),
            mandatory_avp(268, u32_bytes(DIAMETER_SUCCESS)),
            mandatory_avp(AVP_SPECIFIC_ACTION, u32_bytes(highest_qci as u32)),
        ]);
        ans
    }

    /// Ends a session: its bandwidth is given back (not below zero) and the answer is success.
    pub fn process_str(&mut self, session_id: &str) -> (r: DiameterMessage)
        requires
            old(self).sessions.wf(),
        ensures
            final(self).sessions.wf(),
            final(self).total_capacity_bps == old(self).total_capacity_bps,
            final(self).sessions@ == old(self).sessions@.remove(session_id@),
            final(self).allocated_bandwidth_bps == (if old(self).sessions@.dom().contains(session_id@) {
                released(old(self).allocated_bandwidth_bps as int, session_bw(old(self).sessions@[session_id@]))
            } else {
                old(self).allocated_bandwidth_bps as int
            }),
            r.header == rx_header(DIAMETER_CMD_SESSION_TERMINATION, DIAMETER_FLAG_PROXIABLE, 0, 0),
            r@.avps == seq![text_avp_of(263, session_id@), mandatory_avp(268, u32_bytes(DIAMETER_SUCCESS))],
    {
        match self.sessions.remove(session_id) {
            Some(s) => {
                let bw: u64 = (s.granted_bandwidth_ul_bps as u64) + (s.granted_bandwidth_dl_bps as u64);
                self.allocated_bandwidth_bps = if self.allocated_bandwidth_bps > bw {
                    self.allocated_bandwidth_bps - bw
                } else {
                    0
                };
            },
            None => {},
        }
        let mut ans = DiameterMessage::new_answer(DIAMETER_CMD_SESSION_TERMINATION, DIAMETER_APPLICATION_RX, 0, 0);
        ans.add_avp(DiameterAvp::new_utf8(263, session_id));
        ans.add_avp(DiameterAvp::new_u32(268, DIAMETER_SUCCESS));
        assert(ans@.avps =~= seq![text_avp_of(263, session_id@), mandatory_avp(268, u32_bytes(DIAMETER_SUCCESS))]);
        ans
    }
}

/// Every authorization keeps the allocated bandwidth within capacity: refused, it leaves the
/// allocation as it was; granted, the new allocation fits by the test that granted it.
pub proof fn lemma_allocation_within_capacity(e: PcrfRxEngine, req: &AaRequest)
    requires
        e.allocated_bandwidth_bps <= e.total_capacity_bps,
    ensures
        (if aar_after(e, req) > e.total_capacity_bps {
            e.allocated_bandwidth_bps as int
        } else {
            aar_after(e, req)
        }) <= e.total_capacity_bps,
{
}

/// Terminating a session that an authorization has just created gives back exactly what it
/// was granted: the allocation returns to what it was before the request.
pub proof fn lemma_aar_then_str_restores(e: PcrfRxEngine, req: &AaRequest)
    requires
        !e.sessions@.dom().contains(req.session_id@),
        aar_after(e, req) <= e.total_capacity_bps,
    ensures
        ({
            let ms = mcs_view(req.media_components@);
            released(aar_after(e, req), sum_ul(ms) + sum_dl(ms)) == e.allocated_bandwidth_bps
        }),
{
    lemma_sums_nonneg(mcs_view(req.media_components@));
}

/// One step of adding up the bandwidth held by the sessions of `m`.
pub open spec fn bw_step(m: Map<Seq<char>, PcrfSessionState>) -> spec_fn(int, Seq<char>) -> int {
    |acc: int, k: Seq<char>| acc + session_bw(m[k])
}

/// The bandwidth held by all the sessions of `m`, added up.
pub open spec fn total_bw(m: Map<Seq<char>, PcrfSessionState>) -> int {
    m.dom().fold(0int, bw_step(m))
}

proof fn lemma_bw_step_commutes(m: Map<Seq<char>, PcrfSessionState>)
    ensures
        vstd::set::fold::is_fun_commutative(bw_step(m)),
{
    assert forall|a1: Seq<char>, a2: Seq<char>, b: int| #[trigger] bw_step(m)(bw_step(m)(b, a2), a1) == bw_step(m)(bw_step(m)(b, a1), a2) by {
    }
}

/// Adding up over the same keys with the same bandwidths gives the same, non-negative total.
proof fn lemma_fold_agree(ks: Set<Seq<char>>, m1: Map<Seq<char>, PcrfSessionState>, m2: Map<Seq<char>, PcrfSessionState>)
    requires
        ks.finite(),
        forall|k: Seq<char>| ks.contains(k) ==> session_bw(m1[k]) == session_bw(m2[k]),
    ensures
        ks.fold(0int, bw_step(m1)) == ks.fold(0int, bw_step(m2)),
        ks.fold(0int, bw_step(m1)) >= 0,
    decreases ks.len(),
{
    lemma_bw_step_commutes(m1);
    lemma_bw_step_commutes(m2);
    if ks.len() == 0 {
        assert(ks =~= Set::<Seq<char>>::empty());
        vstd::set::fold::lemma_fold_empty(0int, bw_step(m1));
        vstd::set::fold::lemma_fold_empty(0int, bw_step(m2));
    } else {
        let a = ks.choose();
        let r = ks.remove(a);
        assert(ks =~= r.insert(a));
        lemma_fold_agree(r, m1, m2);
        vstd::set::fold::lemma_fold_insert(r, 0int, bw_step(m1), a);
        vstd::set::fold::lemma_fold_insert(r, 0int, bw_step(m2), a);
        lemma_session_bw_nonneg(m1[a]);
    }
}

proof fn lemma_session_bw_nonneg(s: PcrfSessionState)
    ensures
        session_bw(s) >= 0,
{
}

/// The total of `m` split into the session under `k`, if any, and the rest.
proof fn lemma_total_split(m: Map<Seq<char>, PcrfSessionState>, k: Seq<char>)
    requires
        m.dom().finite(),
    ensures
        total_bw(m) == total_bw(m.remove(k)) + (if m.dom().contains(k) { session_bw(m[k]) } else { 0 }),
        total_bw(m.remove(k)) >= 0,
{
    lemma_bw_step_commutes(m);
    let r = m.dom().remove(k);
    assert(m.remove(k).dom() =~= r);
    lemma_fold_agree(r, m, m.remove(k));
    if m.dom().contains(k) {
        assert(m.dom() =~= r.insert(k));
        vstd::set::fold::lemma_fold_insert(r, 0int, bw_step(m), k);
    } else {
        assert(m.dom() =~= r);
    }
}

/// Law: the allocation is the sum of the sessions' bandwidths, and a granted authorization
/// keeps it so. With the allocation equal to that sum, the allocation after an
/// authorization that stores session `s` (holding what the request's components ask for)
/// is the sum over the sessions with `s` stored under the request's identifier.
pub proof fn lemma_aar_keeps_sum(e: PcrfRxEngine, req: &AaRequest, s: PcrfSessionState)
    requires
        e.sessions.wf(),
        e.allocated_bandwidth_bps == total_bw(e.sessions@),
        session_bw(s) == sum_ul(mcs_view(req.media_components@)) + sum_dl(mcs_view(req.media_components@)),
    ensures
        aar_after(e, req) == total_bw(e.sessions@.insert(req.session_id@, s)),
{
    e.sessions.lemma_len();
    let m = e.sessions@;
    let k = req.session_id@;
    let m2 = m.insert(k, s);
    lemma_total_split(m, k);
    lemma_total_split(m2, k);
    assert(m2.remove(k) =~= m.remove(k));
}

/// Law: terminating a session keeps the allocation equal to the sum of the remaining
/// sessions' bandwidths.
pub proof fn lemma_str_keeps_sum(e: PcrfRxEngine, sid: Seq<char>)
    requires
        e.sessions.wf(),
        e.allocated_bandwidth_bps == total_bw(e.sessions@),
    ensures
        (if e.sessions@.dom().contains(sid) {
            released(e.allocated_bandwidth_bps as int, session_bw(e.sessions@[sid]))
        } else {
            e.allocated_bandwidth_bps as int
        }) == total_bw(e.sessions@.remove(sid)),
{
    e.sessions.lemma_len();
    let m = e.sessions@;
    lemma_total_split(m, sid);
    if !m.dom().contains(sid) {
        assert(m.remove(sid) =~= m);
    }
}

} // verus!
