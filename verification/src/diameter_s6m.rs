//! S6m (MTC-IWF to HSS): subscriber information for device triggering.
use vstd::prelude::*;
use crate::table::{StrTable, map_get};

verus! {

pub const DIAMETER_APPLICATION_S6M: u32 = 16777310;
pub const DIAMETER_CMD_SUBSCRIBER_INFORMATION: u32 = 8388641;

#[derive(Debug, Clone, Copy, PartialEq, Eq, Structural)]
pub enum SmsMiResult {
    Authorized,
    Barred,
    NotRegistered,
}

#[derive(Debug, Clone, PartialEq, Eq)]
pub enum S6mAvp {
    UserName(String),
    SmsMiResult(SmsMiResult),
    Teleservice(String),
    ResultCode(u32),
}

#[derive(Debug, Clone, PartialEq, Eq)]
pub struct S6mMessage {
    pub command_code: u32,
    pub is_request: bool,
    pub application_id: u32,
    pub session_id: String,
    pub avps: Vec<S6mAvp>,
}

/// The first User-Name, or the empty text.
pub open spec fn user_or_empty(avps: Seq<S6mAvp>) -> Seq<char>
    decreases avps.len(),
{
    if avps.len() == 0 {
        Seq::empty()
    } else if let S6mAvp::UserName(s) = avps[0] {
        s@
    } else {
        user_or_empty(avps.skip(1))
    }
}

fn find_user(avps: &Vec<S6mAvp>) -> (r: String)
    ensures
        r@ == user_or_empty(avps@),
{
    let mut i: usize = 0;
    assert(avps@.skip(0) =~= avps@);
    while i < avps.len()
        invariant
            i <= avps@.len(),
            user_or_empty(avps@) == user_or_empty(avps@.skip(i as int)),
        decreases avps@.len() - i,
    {
        assert(avps@.skip(i as int)[0] == avps@[i as int]);
        assert(avps@.skip(i as int).skip(1) =~= avps@.skip(i + 1));
        if let S6mAvp::UserName(s) = &avps[i] {
            return s.clone();
        }
        i = i + 1;
    }
    String::new()
}

/// An answer to `req` with `code` and `auth`.
pub open spec fn is_sia(r: S6mMessage, req: S6mMessage, code: u32, auth: SmsMiResult) -> bool {
    &&& r.command_code == req.command_code
    &&& !r.is_request
    &&& r.application_id == req.application_id
    &&& r.session_id@ == req.session_id@
    &&& r.avps@ == seq![S6mAvp::ResultCode(code), S6mAvp::SmsMiResult(auth)]
}

impl S6mMessage {
    /// A Subscriber-Information-Request for `imsi`.
    pub fn new_sir(session_id: &str, imsi: &str) -> (r: Self)
        ensures
            r.command_code == DIAMETER_CMD_SUBSCRIBER_INFORMATION,
            r.is_request,
            r.application_id == DIAMETER_APPLICATION_S6M,
            r.session_id@ == session_id@,
            r.avps@.len() == 1,
            r.avps@[0] matches S6mAvp::UserName(u) && u@ == imsi@,
    {
        S6mMessage {
            command_code: DIAMETER_CMD_SUBSCRIBER_INFORMATION,
            is_request: true,
            application_id: DIAMETER_APPLICATION_S6M,
            session_id: session_id.to_owned(),
            avps: vec![S6mAvp::UserName(imsi.to_owned())],
        }
    }

    /// The answer to `req`.
    pub fn new_sia(req: &S6mMessage, result_code: u32, auth: SmsMiResult) -> (r: Self)
        ensures
            is_sia(r, *req, result_code, auth),
    {
        S6mMessage {
            command_code: req.command_code,
            is_request: false,
            application_id: req.application_id,
            session_id: req.session_id.clone(),
            avps: vec![S6mAvp::ResultCode(result_code), S6mAvp::SmsMiResult(auth)],
        }
    }
}

#[derive(Debug, Clone)]
pub struct S6mHssEngine {
    pub hss_realm: String,
    pub subscriber_profiles: StrTable<SmsMiResult>,
    pub total_sir_requests: u64,
}

impl S6mHssEngine {
    pub fn new(hss_realm: &str) -> (r: Self)
        ensures
            r.hss_realm@ == hss_realm@,
            r.subscriber_profiles.wf(),
            r.subscriber_profiles@ == Map::<Seq<char>, SmsMiResult>::empty(),
            r.total_sir_requests == 0,
    {
        S6mHssEngine { hss_realm: hss_realm.to_owned(), subscriber_profiles: StrTable::new(), total_sir_requests: 0 }
    }

    /// Records `status` for `imsi`.
    pub fn register_subscriber(&mut self, imsi: &str, status: SmsMiResult)
        requires
            old(self).subscriber_profiles.wf(),
        ensures
            final(self).subscriber_profiles.wf(),
            final(self).subscriber_profiles@ == old(self).subscriber_profiles@.insert(imsi@, status),
            final(self).total_sir_requests == old(self).total_sir_requests,
    {
        self.subscriber_profiles.insert(imsi.to_owned(), status);
    }

    /// Answers with 2001 and the registered status of the first User-Name (empty when none),
    /// or 5001 and "not registered".
    pub fn handle_sir(&mut self, sir: &S6mMessage) -> (r: S6mMessage)
        requires
            old(self).subscriber_profiles.wf(),
            old(self).total_sir_requests < u64::MAX,
        ensures
            final(self).total_sir_requests == old(self).total_sir_requests + 1,
            final(self).subscriber_profiles == old(self).subscriber_profiles,
            match map_get(old(self).subscriber_profiles@, user_or_empty(sir.avps@)) {
                Some(s) => is_sia(r, *sir, 2001, s),
                None => is_sia(r, *sir, 5001, SmsMiResult::NotRegistered),
            },
    {
        self.total_sir_requests = self.total_sir_requests + 1;
        let user = find_user(&sir.avps);
        match self.subscriber_profiles.get(user.as_str()) {
            Some(s) => S6mMessage::new_sia(sir, 2001, *s),
            None => S6mMessage::new_sia(sir, 5001, SmsMiResult::NotRegistered),
        }
    }
}

} // verus!
