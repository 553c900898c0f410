//! S6a/S6d Insert-Subscriber-Data (IDR / IDA, command 319): the HSS pushes a changed
//! subscription profile to the serving MME.
use vstd::prelude::*;
use crate::table::StrTable;
use crate::text::concat;

verus! {

pub const DIAMETER_APPLICATION_S6A: u32 = 16777251;
pub const DIAMETER_CMD_INSERT_SUBSCRIBER_DATA: u32 = 319;

#[derive(Debug, Clone, PartialEq, Eq)]
pub struct DynamicSubscriberProfile {
    pub imsi: String,
    pub max_bandwidth_ul_kbps: u32,
    pub max_bandwidth_dl_kbps: u32,
    pub default_apn: String,
    pub roaming_allowed: bool,
}

#[derive(Debug, Clone, PartialEq, Eq)]
pub enum S6aIdrAvp {
    UserName(String),
    AmbrUl(u32),
    AmbrDl(u32),
    ServiceSelection(String),
    RoamingRestricted(bool),
    ResultCode(u32),
}

#[derive(Debug, Clone, PartialEq, Eq)]
pub struct S6aIdrMessage {
    pub command_code: u32,
    pub is_request: bool,
    pub application_id: u32,
    pub session_id: String,
    pub avps: Vec<S6aIdrAvp>,
}

/// The AVPs of an IDR carrying `profile`: IMSI, both AMBRs, the APN and the roaming bar.
pub open spec fn idr_avps_match(avps: Seq<S6aIdrAvp>, profile: DynamicSubscriberProfile) -> bool {
    &&& avps.len() == 5
    &&& avps[0] matches S6aIdrAvp::UserName(s) && s@ == profile.imsi@
    &&& avps[1] == S6aIdrAvp::AmbrUl(profile.max_bandwidth_ul_kbps)
    &&& avps[2] == S6aIdrAvp::AmbrDl(profile.max_bandwidth_dl_kbps)
    &&& avps[3] matches S6aIdrAvp::ServiceSelection(s) && s@ == profile.default_apn@
    &&& avps[4] == S6aIdrAvp::RoamingRestricted(!profile.roaming_allowed)
}

/// Whether some AVP is a Result-Code of 2001.
pub open spec fn acknowledged(avps: Seq<S6aIdrAvp>) -> bool {
    exists|i: int| 0 <= i < avps.len() && #[trigger] avps[i] == S6aIdrAvp::ResultCode(2001)
}

impl S6aIdrMessage {
    /// An Insert-Subscriber-Data-Request carrying `profile`.
    pub fn new_idr(session_id: &str, profile: &DynamicSubscriberProfile) -> (r: Self)
        ensures
            r.command_code == DIAMETER_CMD_INSERT_SUBSCRIBER_DATA,
            r.is_request,
            r.application_id == DIAMETER_APPLICATION_S6A,
            r.session_id@ == session_id@,
            idr_avps_match(r.avps@, *profile),
    {
        S6aIdrMessage {
            command_code: DIAMETER_CMD_INSERT_SUBSCRIBER_DATA,
            is_request: true,
            application_id: DIAMETER_APPLICATION_S6A,
            session_id: session_id.to_owned(),
            avps: vec![
                S6aIdrAvp::UserName(profile.imsi.clone()),
                S6aIdrAvp::AmbrUl(profile.max_bandwidth_ul_kbps),
                S6aIdrAvp::AmbrDl(profile.max_bandwidth_dl_kbps),
                S6aIdrAvp::ServiceSelection(profile.default_apn.clone()),
                S6aIdrAvp::RoamingRestricted(!profile.roaming_allowed),
            ],
        }
    }

    /// The answer to `req`: same command, application and session, one Result-Code.
    pub fn new_ida(req: &S6aIdrMessage, result_code: u32) -> (r: Self)
        ensures
            r.command_code == req.command_code,
            !r.is_request,
            r.application_id == req.application_id,
            r.session_id@ == req.session_id@,
            r.avps@ == seq![S6aIdrAvp::ResultCode(result_code)],
    {
        S6aIdrMessage {
            command_code: req.command_code,
            is_request: false,
            application_id: req.application_id,
            session_id: req.session_id.clone(),
            avps: vec![S6aIdrAvp::ResultCode(result_code)],
        }
    }
}

#[derive(Debug, Clone)]
pub struct S6aIdrEngine {
    pub hss_realm: String,
    pub subscriber_profiles: StrTable<DynamicSubscriberProfile>,
    pub total_idr_sent: u64,
    pub total_ida_received: u64,
}

impl S6aIdrEngine {
    pub fn new(hss_realm: &str) -> (r: Self)
        ensures
            r.hss_realm@ == hss_realm@,
            r.subscriber_profiles.wf(),
            r.subscriber_profiles@ == Map::<Seq<char>, DynamicSubscriberProfile>::empty(),
            r.total_idr_sent == 0,
            r.total_ida_received == 0,
    {
        S6aIdrEngine {
            hss_realm: hss_realm.to_owned(),
            subscriber_profiles: StrTable::new(),
            total_idr_sent: 0,
            total_ida_received: 0,
        }
    }

    /// Stores `profile` under its IMSI and returns the IDR that carries it, in session
    /// "s6a-idr-" followed by the IMSI.
    pub fn update_profile(&mut self, profile: DynamicSubscriberProfile) -> (r: S6aIdrMessage)
        requires
            old(self).subscriber_profiles.wf(),
            old(self).total_idr_sent < u64::MAX,
        ensures
            final(self).subscriber_profiles.wf(),
            final(self).subscriber_profiles@ == old(self).subscriber_profiles@.insert(profile.imsi@, profile),
            final(self).total_idr_sent == old(self).total_idr_sent + 1,
            final(self).total_ida_received == old(self).total_ida_received,
            final(self).hss_realm == old(self).hss_realm,
            r.command_code == DIAMETER_CMD_INSERT_SUBSCRIBER_DATA,
            r.is_request,
            r.application_id == DIAMETER_APPLICATION_S6A,
            r.session_id@ == "s6a-idr-"@ + profile.imsi@,
            idr_avps_match(r.avps@, profile),
    {
        let imsi = profile.imsi.clone();
        let session = concat("s6a-idr-", imsi.as_str());
        let idr = S6aIdrMessage::new_idr(session.as_str(), &profile);
        self.subscriber_profiles.insert(imsi, profile);
        self.total_idr_sent = self.total_idr_sent + 1;
        idr
    }

    /// Counts the answer and tells whether it acknowledges with Result-Code 2001.
    pub fn handle_ida(&mut self, ida: &S6aIdrMessage) -> (r: bool)
        requires
            old(self).total_ida_received < u64::MAX,
        ensures
            r == acknowledged(ida.avps@),
            final(self).total_ida_received == old(self).total_ida_received + 1,
            final(self).total_idr_sent == old(self).total_idr_sent,
            final(self).subscriber_profiles@ == old(self).subscriber_profiles@,
            final(self).subscriber_profiles.wf() == old(self).subscriber_profiles.wf(),
            final(self).hss_realm == old(self).hss_realm,
    {
        self.total_ida_received = self.total_ida_received + 1;
        has_success(&ida.avps)
    }
}

/// Whether some AVP is a Result-Code of 2001.
fn has_success(avps: &Vec<S6aIdrAvp>) -> (r: bool)
    ensures
        r == acknowledged(avps@),
{
    let mut i: usize = 0;
    while i < avps.len()
        invariant
            i <= avps@.len(),
            forall|j: int| 0 <= j < i ==> avps@[j] != S6aIdrAvp::ResultCode(2001),
        decreases avps@.len() - i,
    {
        if let S6aIdrAvp::ResultCode(c) = &avps[i] {
            if *c == 2001 {
                assert(avps@[i as int] == S6aIdrAvp::ResultCode(2001));
                return true;
            }
        }
        i = i + 1;
    }
    false
}

} // verus!
