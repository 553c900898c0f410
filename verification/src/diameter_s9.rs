//! Diameter S9 between the home and the visited PCRF (3GPP TS 29.215), Application ID
//! 16777267: Subsession-Enforcement-Info grouped AVPs carried in Credit-Control.
use vstd::prelude::*;
use std::collections::HashMap;
use crate::diameter::{
    AvpModel, DiameterAvp, DiameterMessage, DiameterHeader, avp_models, avp_wf, avps_bytes, mandatory_avp,
    serialize_avps, lemma_avps_roundtrip, DIAMETER_FLAG_MANDATORY, DIAMETER_FLAG_PROXIABLE,
    DIAMETER_FLAG_VENDOR_SPECIFIC, DIAMETER_SUCCESS,
};
use crate::diameter_gx::{gx_avp, VENDOR_3GPP};
use crate::diameter_s6a::last_sized;
use crate::wire::{be32_at, push_u32, read_u32, u32_bytes, lemma_u32_roundtrip};

verus! {

broadcast use vstd::std_specs::hash::group_hash_axioms;

pub const DIAMETER_APPLICATION_S9: u32 = 16777267;

pub const DIAMETER_CMD_CC: u32 = 272;

pub const AVP_SUBSESSION_DECISION_INFO: u32 = 2200;
pub const AVP_SUBSESSION_ENFORCEMENT_INFO: u32 = 2201;
pub const AVP_SUBSESSION_ID: u32 = 2202;
pub const AVP_MAX_REQUESTED_BANDWIDTH_UL: u32 = 516;
pub const AVP_MAX_REQUESTED_BANDWIDTH_DL: u32 = 515;

/// Subsession-Enforcement-Info (AVP 2201): a subsession and its bandwidth limits.
#[derive(Debug, Clone, Copy, PartialEq, Eq, Structural)]
pub struct SubsessionEnforcementInfo {
    pub subsession_id: u32,
    pub max_bandwidth_ul_kbps: u32,
    pub max_bandwidth_dl_kbps: u32,
}

/// The inner AVPs: subsession, uplink limit, downlink limit, each a 3GPP Unsigned32.
pub open spec fn enforcement_inner(i: SubsessionEnforcementInfo) -> Seq<AvpModel> {
    seq![
        gx_avp(AVP_SUBSESSION_ID, u32_bytes(i.subsession_id)),
        gx_avp(AVP_MAX_REQUESTED_BANDWIDTH_UL, u32_bytes(i.max_bandwidth_ul_kbps)),
        gx_avp(AVP_MAX_REQUESTED_BANDWIDTH_DL, u32_bytes(i.max_bandwidth_dl_kbps)),
    ]
}

/// The grouped AVP.
pub open spec fn enforcement_avp(i: SubsessionEnforcementInfo) -> AvpModel {
    gx_avp(AVP_SUBSESSION_ENFORCEMENT_INFO, avps_bytes(enforcement_inner(i)))
}

/// The information read from the grouped AVP's data: the AVPs up to the first malformed
/// one, the last subsession, uplink and downlink AVPs of four octets; all three needed.
pub open spec fn enforcement_parse(data: Seq<u8>) -> Option<SubsessionEnforcementInfo> {
    let avps = crate::diameter::avps_parse_prefix(data);
    match (
        last_sized(avps, AVP_SUBSESSION_ID, 4),
        last_sized(avps, AVP_MAX_REQUESTED_BANDWIDTH_UL, 4),
        last_sized(avps, AVP_MAX_REQUESTED_BANDWIDTH_DL, 4),
    ) {
        (Some(a), Some(b), Some(c)) => Some(
            SubsessionEnforcementInfo {
                subsession_id: be32_at(a, 0) as u32,
                max_bandwidth_ul_kbps: be32_at(b, 0) as u32,
                max_bandwidth_dl_kbps: be32_at(c, 0) as u32,
            },
        ),
        _ => None,
    }
}

fn u32_data(v: u32) -> (r: Vec<u8>)
    ensures
        r@ == u32_bytes(v),
{
    let mut d: Vec<u8> = Vec::new();
    push_u32(&mut d, v);
    assert(d@ =~= u32_bytes(v));
    d
}

impl SubsessionEnforcementInfo {
    pub fn new(subsession_id: u32, max_ul_kbps: u32, max_dl_kbps: u32) -> (r: Self)
        ensures
            r == (SubsessionEnforcementInfo {
                subsession_id,
                max_bandwidth_ul_kbps: max_ul_kbps,
                max_bandwidth_dl_kbps: max_dl_kbps,
            }),
    {
        SubsessionEnforcementInfo { subsession_id, max_bandwidth_ul_kbps: max_ul_kbps, max_bandwidth_dl_kbps: max_dl_kbps }
    }

    /// The information as a grouped AVP.
    pub fn to_grouped_avp(&self) -> (r: DiameterAvp)
        ensures
            r@ == enforcement_avp(*self),
    {
        let flags = DIAMETER_FLAG_MANDATORY | DIAMETER_FLAG_VENDOR_SPECIFIC;
        assert(DIAMETER_FLAG_MANDATORY | DIAMETER_FLAG_VENDOR_SPECIFIC == 0xC0u8) by (bit_vector);
        let mut inner: Vec<DiameterAvp> = Vec::new();
        inner.push(DiameterAvp::new_vendor(AVP_SUBSESSION_ID, flags, VENDOR_3GPP, u32_data(self.subsession_id).as_slice()));
        inner.push(
            DiameterAvp::new_vendor(
                AVP_MAX_REQUESTED_BANDWIDTH_UL,
                flags,
                VENDOR_3GPP,
                u32_data(self.max_bandwidth_ul_kbps).as_slice(),
            ),
        );
        inner.push(
            DiameterAvp::new_vendor(
                AVP_MAX_REQUESTED_BANDWIDTH_DL,
                flags,
                VENDOR_3GPP,
                u32_data(self.max_bandwidth_dl_kbps).as_slice(),
            ),
        );
        assert(avp_models(inner@) =~= enforcement_inner(*self));
        let payload = serialize_avps(&inner);
        DiameterAvp::new_vendor(AVP_SUBSESSION_ENFORCEMENT_INFO, flags, VENDOR_3GPP, payload.as_slice())
    }

    /// Reads the information from a grouped AVP (see `enforcement_parse`).
    pub fn from_grouped_avp(avp: &DiameterAvp) -> (r: Option<Self>)
        ensures
            r == enforcement_parse(avp.data@),
    {
        let inners = DiameterAvp::parse_all(avp.data.as_slice());
        let ghost avps = avp_models(inners@);
        let mut sub_id: Option<u32> = None;
        let mut ul: Option<u32> = None;
        let mut dl: Option<u32> = None;
        let mut i: usize = 0;
        while i < inners.len()
            invariant
                avps == avp_models(inners@),
                i <= inners@.len(),
                sub_id == word_of(last_sized(avps.take(i as int), AVP_SUBSESSION_ID, 4)),
                ul == word_of(last_sized(avps.take(i as int), AVP_MAX_REQUESTED_BANDWIDTH_UL, 4)),
                dl == word_of(last_sized(avps.take(i as int), AVP_MAX_REQUESTED_BANDWIDTH_DL, 4)),
            decreases inners@.len() - i,
        {
            proof {
                assert(avps.take(i + 1).drop_last() =~= avps.take(i as int));
                assert(avps.take(i + 1).last() == inners@[i as int]@);
            }
            let a = &inners[i];
            if a.data.len() == 4 {
                let v = read_u32(a.data.as_slice(), 0);
                if a.code == AVP_SUBSESSION_ID {
                    sub_id = Some(v);
                } else if a.code == AVP_MAX_REQUESTED_BANDWIDTH_UL {
                    ul = Some(v);
                } else if a.code == AVP_MAX_REQUESTED_BANDWIDTH_DL {
                    dl = Some(v);
                }
            }
            i = i + 1;
        }
        assert(avps.take(i as int) =~= avps);
        match (sub_id, ul, dl) {
            (Some(id), Some(u), Some(d)) => Some(
                SubsessionEnforcementInfo { subsession_id: id, max_bandwidth_ul_kbps: u, max_bandwidth_dl_kbps: d },
            ),
            _ => None,
        }
    }
}

/// The number in optional octets.
pub open spec fn word_of(o: Option<Seq<u8>>) -> Option<u32> {
    match o {
        Some(b) => Some(be32_at(b, 0) as u32),
        None => None,
    }
}

/// The information survives its grouped AVP.
pub proof fn lemma_enforcement_roundtrip(i: SubsessionEnforcementInfo)
    ensures
        enforcement_parse(enforcement_avp(i).data) == Some(i),
{
    let l = enforcement_inner(i);
    assert(0xC0u8 & 0x80u8 != 0) by (bit_vector);
    lemma_u32_roundtrip(i.subsession_id);
    lemma_u32_roundtrip(i.max_bandwidth_ul_kbps);
    lemma_u32_roundtrip(i.max_bandwidth_dl_kbps);
    assert forall|k: int| 0 <= k < l.len() implies avp_wf(#[trigger] l[k]) by {}
    lemma_avps_roundtrip(l);
    crate::diameter_s6a::lemma_parse_prefix_of_parse(avps_bytes(l));
    let l2 = l.drop_last();
    let l1 = l2.drop_last();
    assert(l2 =~= seq![l[0], l[1]]);
    assert(l1 =~= seq![l[0]]);
    assert(last_sized(l, AVP_MAX_REQUESTED_BANDWIDTH_DL, 4) == Some(u32_bytes(i.max_bandwidth_dl_kbps)));
    assert(last_sized(l2, AVP_MAX_REQUESTED_BANDWIDTH_UL, 4) == Some(u32_bytes(i.max_bandwidth_ul_kbps)));
    assert(last_sized(l, AVP_MAX_REQUESTED_BANDWIDTH_UL, 4) == Some(u32_bytes(i.max_bandwidth_ul_kbps)));
    assert(last_sized(l1, AVP_SUBSESSION_ID, 4) == Some(u32_bytes(i.subsession_id)));
    assert(last_sized(l2, AVP_SUBSESSION_ID, 4) == Some(u32_bytes(i.subsession_id)));
    assert(last_sized(l, AVP_SUBSESSION_ID, 4) == Some(u32_bytes(i.subsession_id)));
}

/// An S9 PCRF: the roaming subsessions it has been told of.
#[derive(Debug, Clone)]
pub struct PcrfS9Engine {
    pub is_home_pcrf: bool,
    pub roaming_subsessions: HashMap<u32, SubsessionEnforcementInfo>,
    pub cc_requests_processed: usize,
}

impl Default for PcrfS9Engine {
    fn default() -> (r: Self)
        ensures
            !r.is_home_pcrf,
            r.roaming_subsessions@ == Map::<u32, SubsessionEnforcementInfo>::empty(),
            r.cc_requests_processed == 0,
    {
        PcrfS9Engine::new(false)
    }
}

impl PcrfS9Engine {
    pub fn new(is_home_pcrf: bool) -> (r: Self)
        ensures
            r.is_home_pcrf == is_home_pcrf,
            r.roaming_subsessions@ == Map::<u32, SubsessionEnforcementInfo>::empty(),
            r.cc_requests_processed == 0,
    {
        PcrfS9Engine { is_home_pcrf, roaming_subsessions: HashMap::new(), cc_requests_processed: 0 }
    }

    /// Takes a Credit-Control request with a subsession: it is counted and kept under its
    /// identifier, and the answer is success with the subsession echoed.
    pub fn handle_ccr(&mut self, sub_info: SubsessionEnforcementInfo) -> (r: DiameterMessage)
        requires
            old(self).cc_requests_processed < usize::MAX,
        ensures
            final(self).cc_requests_processed == old(self).cc_requests_processed + 1,
            final(self).roaming_subsessions@ == old(self).roaming_subsessions@.insert(sub_info.subsession_id, sub_info),
            final(self).is_home_pcrf == old(self).is_home_pcrf,
            r.header == (DiameterHeader {
                version: 1,
                length: 0,
                flags: DIAMETER_FLAG_PROXIABLE,
                command_code: DIAMETER_CMD_CC,
                application_id: DIAMETER_APPLICATION_S9,
                hop_by_hop_id: 1,
                end_to_end_id: 1,
            }),
            r@.avps == seq![mandatory_avp(268, u32_bytes(DIAMETER_SUCCESS)), enforcement_avp(sub_info)],
    {
        self.cc_requests_processed = self.cc_requests_processed + 1;
        self.roaming_subsessions.insert(sub_info.subsession_id, sub_info);
        let mut cca = DiameterMessage::new_answer(DIAMETER_CMD_CC, DIAMETER_APPLICATION_S9, 1, 1);
        cca.add_avp(DiameterAvp::new_u32(268, DIAMETER_SUCCESS));
        cca.add_avp(sub_info.to_grouped_avp());
        assert(cca@.avps =~= seq![mandatory_avp(268, u32_bytes(DIAMETER_SUCCESS)), enforcement_avp(sub_info)]);
        cca
    }
}

} // verus!
