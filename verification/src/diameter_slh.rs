//! Diameter SLh between the GMLC and the HSS (3GPP TS 29.173), Application ID 16777291:
//! LCS routing information (command 8388620) naming a subscriber's serving MME.
use vstd::prelude::*;
use vstd::utf8::{decode_utf8, encode_utf8, valid_utf8};
use crate::diameter::{
    AvpModel, DiameterAvp, DiameterHeader, DiameterMessage, avp_models, avp_wf, avps_bytes, avps_parse_prefix,
    mandatory_avp, serialize_avps, lemma_avps_roundtrip, DIAMETER_FLAG_MANDATORY, DIAMETER_FLAG_PROXIABLE,
    DIAMETER_FLAG_VENDOR_SPECIFIC, DIAMETER_SUCCESS,
};
use crate::diameter_gx::{gx_avp, VENDOR_3GPP};
use crate::table::StrTable;
use crate::text::owned;
use crate::wire::{push_u32, u32_bytes};

verus! {

pub const DIAMETER_APPLICATION_SLH: u32 = 16777291;

pub const DIAMETER_CMD_LCS_ROUTING_INFO: u32 = 8388620;

pub const AVP_SERVING_NODE: u32 = 2401;
pub const AVP_MME_NAME: u32 = 2402;
pub const AVP_MME_REALM: u32 = 2408;
pub const AVP_LCS_CAPABILITIES_SETS: u32 = 2403;

/// Serving-Node (AVP 2401): the serving MME's name and realm.
#[derive(Debug, Clone, PartialEq, Eq)]
pub struct ServingNodeInfo {
    pub mme_name: String,
    pub mme_realm: String,
}

/// The grouped AVP of a serving node: name, then realm, each a 3GPP text AVP.
pub open spec fn serving_node_avp(name: Seq<char>, realm: Seq<char>) -> AvpModel {
    gx_avp(AVP_SERVING_NODE, avps_bytes(serving_node_inner(name, realm)))
}

pub open spec fn serving_node_inner(name: Seq<char>, realm: Seq<char>) -> Seq<AvpModel> {
    seq![gx_avp(AVP_MME_NAME, encode_utf8(name)), gx_avp(AVP_MME_REALM, encode_utf8(realm))]
}

/// The text of the last AVP with `code`, `None` where there is none or its data is not
/// UTF-8.
pub open spec fn last_text_of(avps: Seq<AvpModel>, code: u32) -> Option<Seq<char>>
    decreases avps.len(),
{
    if avps.len() == 0 {
        None
    } else if avps.last().code == code {
        if valid_utf8(avps.last().data) { Some(decode_utf8(avps.last().data)) } else { None }
    } else {
        last_text_of(avps.drop_last(), code)
    }
}

/// The serving node read from a grouped AVP's data: the AVPs up to the first malformed
/// one, the last name and the last realm; both needed.
pub open spec fn serving_node_parse(data: Seq<u8>) -> Option<(Seq<char>, Seq<char>)> {
    let avps = avps_parse_prefix(data);
    match (last_text_of(avps, AVP_MME_NAME), last_text_of(avps, AVP_MME_REALM)) {
        (Some(n), Some(r)) => Some((n, r)),
        _ => None,
    }
}

impl ServingNodeInfo {
    pub fn new(mme_name: &str, mme_realm: &str) -> (r: Self)
        ensures
            r.mme_name@ == mme_name@,
            r.mme_realm@ == mme_realm@,
    {
        ServingNodeInfo { mme_name: owned(mme_name), mme_realm: owned(mme_realm) }
    }

    /// The serving node as a grouped AVP.
    pub fn to_grouped_avp(&self) -> (r: DiameterAvp)
        ensures
            r@ == serving_node_avp(self.mme_name@, self.mme_realm@),
    {
        let flags = DIAMETER_FLAG_MANDATORY | DIAMETER_FLAG_VENDOR_SPECIFIC;
        assert(DIAMETER_FLAG_MANDATORY | DIAMETER_FLAG_VENDOR_SPECIFIC == 0xC0u8) by (bit_vector);
        let mut inner: Vec<DiameterAvp> = Vec::new();
        inner.push(DiameterAvp::new_vendor(AVP_MME_NAME, flags, VENDOR_3GPP, self.mme_name.as_str().as_bytes()));
        inner.push(DiameterAvp::new_vendor(AVP_MME_REALM, flags, VENDOR_3GPP, self.mme_realm.as_str().as_bytes()));
        assert(avp_models(inner@) =~= serving_node_inner(self.mme_name@, self.mme_realm@));
        let payload = serialize_avps(&inner);
        DiameterAvp::new_vendor(AVP_SERVING_NODE, flags, VENDOR_3GPP, payload.as_slice())
    }

    /// Reads a serving node from a grouped AVP (see `serving_node_parse`).
    pub fn from_grouped_avp(avp: &DiameterAvp) -> (r: Option<Self>)
        ensures
            match serving_node_parse(avp.data@) {
                Some((n, rl)) => r matches Some(s) && s.mme_name@ == n && s.mme_realm@ == rl,
                None => r is None,
            },
    {
        let inners = DiameterAvp::parse_all(avp.data.as_slice());
        let ghost avps = avp_models(inners@);
        let mut name: Option<String> = None;
        let mut realm: Option<String> = None;
        let mut i: usize = 0;
        while i < inners.len()
            invariant
                avps == avp_models(inners@),
                i <= inners@.len(),
                crate::diameter_sy::opt_chars(name) == last_text_of(avps.take(i as int), AVP_MME_NAME),
                crate::diameter_sy::opt_chars(realm) == last_text_of(avps.take(i as int), AVP_MME_REALM),
            decreases inners@.len() - i,
        {
            proof {
                assert(avps.take(i + 1).drop_last() =~= avps.take(i as int));
                assert(avps.take(i + 1).last() == inners@[i as int]@);
            }
            let a = &inners[i];
            if a.code == AVP_MME_NAME {
                name = a.as_string();
            } else if a.code == AVP_MME_REALM {
                realm = a.as_string();
            }
            i = i + 1;
        }
        assert(avps.take(i as int) =~= avps);
        match (name, realm) {
            (Some(n), Some(rl)) => Some(ServingNodeInfo { mme_name: n, mme_realm: rl }),
            _ => None,
        }
    }
}

/// A serving node survives its grouped AVP, as long as name and realm fit an AVP.
pub proof fn lemma_serving_node_roundtrip(name: Seq<char>, realm: Seq<char>)
    requires
        encode_utf8(name).len() < 0x100_0000 - 12,
        encode_utf8(realm).len() < 0x100_0000 - 12,
    ensures
        serving_node_parse(serving_node_avp(name, realm).data) == Some((name, realm)),
{
    let l = serving_node_inner(name, realm);
    assert(0xC0u8 & 0x80u8 != 0) by (bit_vector);
    assert forall|k: int| 0 <= k < l.len() implies avp_wf(#[trigger] l[k]) by {}
    lemma_avps_roundtrip(l);
    crate::diameter_s6a::lemma_parse_prefix_of_parse(avps_bytes(l));
    vstd::utf8::encode_utf8_valid_utf8(name);
    vstd::utf8::encode_utf8_decode_utf8(name);
    vstd::utf8::encode_utf8_valid_utf8(realm);
    vstd::utf8::encode_utf8_decode_utf8(realm);
    assert(l.drop_last() =~= seq![l[0]]);
    assert(last_text_of(l, AVP_MME_REALM) == Some(realm));
    assert(last_text_of(l.drop_last(), AVP_MME_NAME) == Some(name));
    assert(last_text_of(l, AVP_MME_NAME) == Some(name));
}

/// The SLh side of the HSS: each subscriber's serving node.
#[derive(Debug, Clone)]
pub struct HssSlhEngine {
    pub subscriber_locations: StrTable<ServingNodeInfo>,
    pub total_rir_queries: usize,
}

/// The header of an SLh answer.
pub open spec fn slh_answer_header() -> DiameterHeader {
    DiameterHeader {
        version: 1,
        length: 0,
        flags: DIAMETER_FLAG_PROXIABLE,
        command_code: DIAMETER_CMD_LCS_ROUTING_INFO,
        application_id: DIAMETER_APPLICATION_SLH,
        hop_by_hop_id: 1,
        end_to_end_id: 1,
    }
}

impl Default for HssSlhEngine {
    fn default() -> (r: Self)
        ensures
            r.subscriber_locations.wf(),
            r.subscriber_locations@ == Map::<Seq<char>, ServingNodeInfo>::empty(),
            r.total_rir_queries == 0,
    {
        HssSlhEngine::new()
    }
}

impl HssSlhEngine {
    pub fn new() -> (r: Self)
        ensures
            r.subscriber_locations.wf(),
            r.subscriber_locations@ == Map::<Seq<char>, ServingNodeInfo>::empty(),
            r.total_rir_queries == 0,
    {
        HssSlhEngine { subscriber_locations: StrTable::new(), total_rir_queries: 0 }
    }

    /// Records a subscriber's serving node.
    pub fn register_location(&mut self, imsi: &str, mme_name: &str, mme_realm: &str)
        requires
            old(self).subscriber_locations.wf(),
        ensures
            final(self).subscriber_locations.wf(),
            final(self).subscriber_locations@.dom() == old(self).subscriber_locations@.dom().insert(imsi@),
            forall|k: Seq<char>| k != imsi@ ==> #[trigger] final(self).subscriber_locations@.get(k)
                == old(self).subscriber_locations@.get(k),
            final(self).subscriber_locations@[imsi@].mme_name@ == mme_name@,
            final(self).subscriber_locations@[imsi@].mme_realm@ == mme_realm@,
            final(self).total_rir_queries == old(self).total_rir_queries,
    {
        self.subscriber_locations.insert(owned(imsi), ServingNodeInfo::new(mme_name, mme_realm));
        assert(self.subscriber_locations@.dom() =~= old(self).subscriber_locations@.dom().insert(imsi@));
    }

    /// Answers an LCS-Routing-Info-Request: for a known subscriber, success with its
    /// serving node and LCS capability set 1; otherwise user unknown (5001).
    pub fn handle_rir(&mut self, imsi: &str) -> (r: DiameterMessage)
        requires
            old(self).subscriber_locations.wf(),
            old(self).total_rir_queries < usize::MAX,
        ensures
            final(self).total_rir_queries == old(self).total_rir_queries + 1,
            final(self).subscriber_locations == old(self).subscriber_locations,
            r.header == slh_answer_header(),
            r@.avps == (if old(self).subscriber_locations@.dom().contains(imsi@) {
                let n = old(self).subscriber_locations@[imsi@];
                seq![
                    mandatory_avp(268, u32_bytes(DIAMETER_SUCCESS)),
                    serving_node_avp(n.mme_name@, n.mme_realm@),
                    gx_avp(AVP_LCS_CAPABILITIES_SETS, u32_bytes(1)),
                ]
            } else {
                seq![mandatory_avp(268, u32_bytes(5001))]
            }),
    {
        self.total_rir_queries = self.total_rir_queries + 1;
        let mut ria = DiameterMessage::new_answer(DIAMETER_CMD_LCS_ROUTING_INFO, DIAMETER_APPLICATION_SLH, 1, 1);
        match self.subscriber_locations.get(imsi) {
            Some(node) => {
                ria.add_avp(DiameterAvp::new_u32(268, DIAMETER_SUCCESS));
                ria.add_avp(node.to_grouped_avp());
                let flags = DIAMETER_FLAG_MANDATORY | DIAMETER_FLAG_VENDOR_SPECIFIC;
                assert(DIAMETER_FLAG_MANDATORY | DIAMETER_FLAG_VENDOR_SPECIFIC == 0xC0u8) by (bit_vector);
                let mut one: Vec<u8> = Vec::new();
                push_u32(&mut one, 1);
                ria.add_avp(DiameterAvp::new_vendor(AVP_LCS_CAPABILITIES_SETS, flags, VENDOR_3GPP, one.as_slice()));
                assert(ria@.avps =~= seq![
                    mandatory_avp(268, u32_bytes(DIAMETER_SUCCESS)),
                    serving_node_avp(node.mme_name@, node.mme_realm@),
                    gx_avp(AVP_LCS_CAPABILITIES_SETS, u32_bytes(1)),
                ]);
            },
            None => {
                ria.add_avp(DiameterAvp::new_u32(268, 5001));
                assert(ria@.avps =~= seq![mandatory_avp(268, u32_bytes(5001))]);
            },
        }
        ria
    }
}

} // verus!
