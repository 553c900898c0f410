//! S6a/S6d Cancel-Location-Request / Answer (CLR / CLA, command 317): the HSS tells the old
//! serving MME to tear down a subscriber's context.
use vstd::prelude::*;
use crate::text::str_eq;

verus! {

pub const DIAMETER_APPLICATION_S6A: u32 = 16_777_251;
pub const DIAMETER_CMD_CANCEL_LOCATION: u32 = 317;
pub const RESULT_CODE_SUCCESS: u32 = 2001;
pub const RESULT_CODE_USER_UNKNOWN: u32 = 5001;

/// Cancellation-Type (AVP 1420).
#[derive(Debug, Clone, Copy, PartialEq, Eq, Structural)]
pub enum CancellationType {
    MmeUpdateProcedure,
    SgsnUpdateProcedure,
    SubscriptionWithdrawal,
    UpdateProcedureIwf,
    InitialAttachProcedure,
}

/// The code of each cancellation type.
pub open spec fn cancellation_code(t: CancellationType) -> u32 {
    match t {
        CancellationType::MmeUpdateProcedure => 0,
        CancellationType::SgsnUpdateProcedure => 1,
        CancellationType::SubscriptionWithdrawal => 2,
        CancellationType::UpdateProcedureIwf => 3,
        CancellationType::InitialAttachProcedure => 4,
    }
}

/// The cancellation type with code `v`, if any.
pub open spec fn cancellation_of(v: u32) -> Option<CancellationType> {
    if v == 0 {
        Some(CancellationType::MmeUpdateProcedure)
    } else if v == 1 {
        Some(CancellationType::SgsnUpdateProcedure)
    } else if v == 2 {
        Some(CancellationType::SubscriptionWithdrawal)
    } else if v == 3 {
        Some(CancellationType::UpdateProcedureIwf)
    } else if v == 4 {
        Some(CancellationType::InitialAttachProcedure)
    } else {
        None
    }
}

impl CancellationType {
    pub fn from_u32(val: u32) -> (r: Option<Self>)
        ensures
            r == cancellation_of(val),
    {
        match val {
            0 => Some(Self::MmeUpdateProcedure),
            1 => Some(Self::SgsnUpdateProcedure),
            2 => Some(Self::SubscriptionWithdrawal),
            3 => Some(Self::UpdateProcedureIwf),
            4 => Some(Self::InitialAttachProcedure),
            _ => None,
        }
    }

    pub fn to_u32(self) -> (r: u32)
        ensures
            r == cancellation_code(self),
    {
        match self {
            Self::MmeUpdateProcedure => 0,
            Self::SgsnUpdateProcedure => 1,
            Self::SubscriptionWithdrawal => 2,
            Self::UpdateProcedureIwf => 3,
            Self::InitialAttachProcedure => 4,
        }
    }
}

/// Decoding a code gives back the type that was encoded.
pub proof fn lemma_cancellation_roundtrip(t: CancellationType)
    ensures
        cancellation_of(cancellation_code(t)) == Some(t),
{
}

#[derive(Debug, Clone, PartialEq, Eq)]
pub enum S6aClrAvp {
    SessionId(String),
    OriginHost(String),
    OriginRealm(String),
    DestinationHost(String),
    DestinationRealm(String),
    UserName(String),
    CancellationType(u32),
    ClrFlags(u32),
    ResultCode(u32),
}

#[derive(Debug, Clone)]
pub struct S6aClrMessage {
    pub command_code: u32,
    pub application_id: u32,
    pub is_request: bool,
    pub session_id: String,
    pub avps: Vec<S6aClrAvp>,
}

/// The first User-Name of `avps`.
pub open spec fn first_user_name(avps: Seq<S6aClrAvp>) -> Option<Seq<char>>
    decreases avps.len(),
{
    if avps.len() == 0 {
        None
    } else if let S6aClrAvp::UserName(s) = avps[0] {
        Some(s@)
    } else {
        first_user_name(avps.skip(1))
    }
}

/// The first Cancellation-Type AVP whose code names a type.
pub open spec fn first_cancellation(avps: Seq<S6aClrAvp>) -> Option<CancellationType>
    decreases avps.len(),
{
    if avps.len() == 0 {
        None
    } else if let S6aClrAvp::CancellationType(t) = avps[0] {
        if cancellation_of(t) is Some {
            cancellation_of(t)
        } else {
            first_cancellation(avps.skip(1))
        }
    } else {
        first_cancellation(avps.skip(1))
    }
}

/// The first Result-Code of `avps`.
pub open spec fn first_result_code(avps: Seq<S6aClrAvp>) -> Option<u32>
    decreases avps.len(),
{
    if avps.len() == 0 {
        None
    } else if let S6aClrAvp::ResultCode(c) = avps[0] {
        Some(c)
    } else {
        first_result_code(avps.skip(1))
    }
}

/// The shape of a Cancel-Location-Answer.
pub open spec fn is_cla(r: S6aClrMessage, session_id: Seq<char>, host: Seq<char>, realm: Seq<char>, code: u32) -> bool {
    &&& r.command_code == DIAMETER_CMD_CANCEL_LOCATION
    &&& r.application_id == DIAMETER_APPLICATION_S6A
    &&& !r.is_request
    &&& r.session_id@ == session_id
    &&& r.avps@.len() == 4
    &&& r.avps@[0] matches S6aClrAvp::SessionId(s) && s@ == session_id
    &&& r.avps@[1] matches S6aClrAvp::OriginHost(s) && s@ == host
    &&& r.avps@[2] matches S6aClrAvp::OriginRealm(s) && s@ == realm
    &&& r.avps@[3] == S6aClrAvp::ResultCode(code)
    &&& first_result_code(r.avps@) == Some(code)
}

impl S6aClrMessage {
    /// A Cancel-Location-Request naming `imsi`, with its cancellation type and flags.
    pub fn new_clr(
        session_id: &str,
        origin_host: &str,
        origin_realm: &str,
        dest_host: &str,
        dest_realm: &str,
        imsi: &str,
        cancel_type: CancellationType,
        clr_flags: u32,
    ) -> (r: Self)
        ensures
            r.command_code == DIAMETER_CMD_CANCEL_LOCATION,
            r.application_id == DIAMETER_APPLICATION_S6A,
            r.is_request,
            r.session_id@ == session_id@,
            r.avps@.len() == 8,
            r.avps@[0] matches S6aClrAvp::SessionId(s) && s@ == session_id@,
            r.avps@[1] matches S6aClrAvp::OriginHost(s) && s@ == origin_host@,
            r.avps@[2] matches S6aClrAvp::OriginRealm(s) && s@ == origin_realm@,
            r.avps@[3] matches S6aClrAvp::DestinationHost(s) && s@ == dest_host@,
            r.avps@[4] matches S6aClrAvp::DestinationRealm(s) && s@ == dest_realm@,
            r.avps@[5] matches S6aClrAvp::UserName(s) && s@ == imsi@,
            r.avps@[6] == S6aClrAvp::CancellationType(cancellation_code(cancel_type)),
            r.avps@[7] == S6aClrAvp::ClrFlags(clr_flags),
            first_user_name(r.avps@) == Some(imsi@),
            first_cancellation(r.avps@) == Some(cancel_type),
    {
        let r = Self {
            command_code: DIAMETER_CMD_CANCEL_LOCATION,
            application_id: DIAMETER_APPLICATION_S6A,
            is_request: true,
            session_id: session_id.to_owned(),
            avps: vec![
                S6aClrAvp::SessionId(session_id.to_owned()),
                S6aClrAvp::OriginHost(origin_host.to_owned()),
                S6aClrAvp::OriginRealm(origin_realm.to_owned()),
                S6aClrAvp::DestinationHost(dest_host.to_owned()),
                S6aClrAvp::DestinationRealm(dest_realm.to_owned()),
                S6aClrAvp::UserName(imsi.to_owned()),
                S6aClrAvp::CancellationType(cancel_type.to_u32()),
                S6aClrAvp::ClrFlags(clr_flags),
            ],
        };
        proof {
            reveal_with_fuel(first_user_name, 7);
            reveal_with_fuel(first_cancellation, 8);
        }
        r
    }

    /// A Cancel-Location-Answer with `result_code`.
    pub fn new_cla(session_id: &str, origin_host: &str, origin_realm: &str, result_code: u32) -> (r: Self)
        ensures
            is_cla(r, session_id@, origin_host@, origin_realm@, result_code),
    {
        let r = Self {
            command_code: DIAMETER_CMD_CANCEL_LOCATION,
            application_id: DIAMETER_APPLICATION_S6A,
            is_request: false,
            session_id: session_id.to_owned(),
            avps: vec![
                S6aClrAvp::SessionId(session_id.to_owned()),
                S6aClrAvp::OriginHost(origin_host.to_owned()),
                S6aClrAvp::OriginRealm(origin_realm.to_owned()),
                S6aClrAvp::ResultCode(result_code),
            ],
        };
        proof {
            reveal_with_fuel(first_result_code, 5);
        }
        r
    }

    /// The IMSI of the first User-Name.
    pub fn imsi(&self) -> (r: Option<&str>)
        ensures
            match r {
                Some(s) => first_user_name(self.avps@) == Some(s@),
                None => first_user_name(self.avps@) is None,
            },
    {
        let mut i: usize = 0;
        assert(self.avps@.skip(0) =~= self.avps@);
        while i < self.avps.len()
            invariant
                i <= self.avps@.len(),
                first_user_name(self.avps@) == first_user_name(self.avps@.skip(i as int)),
            decreases self.avps@.len() - i,
        {
            assert(self.avps@.skip(i as int)[0] == self.avps@[i as int]);
            assert(self.avps@.skip(i as int).skip(1) =~= self.avps@.skip(i + 1));
            if let S6aClrAvp::UserName(s) = &self.avps[i] {
                return Some(s.as_str());
            }
            i = i + 1;
        }
        None
    }

    /// The first Cancellation-Type AVP that names a type.
    pub fn cancellation_type(&self) -> (r: Option<CancellationType>)
        ensures
            r == first_cancellation(self.avps@),
    {
        let mut i: usize = 0;
        assert(self.avps@.skip(0) =~= self.avps@);
        while i < self.avps.len()
            invariant
                i <= self.avps@.len(),
                first_cancellation(self.avps@) == first_cancellation(self.avps@.skip(i as int)),
            decreases self.avps@.len() - i,
        {
            assert(self.avps@.skip(i as int)[0] == self.avps@[i as int]);
            assert(self.avps@.skip(i as int).skip(1) =~= self.avps@.skip(i + 1));
            if let S6aClrAvp::CancellationType(t) = &self.avps[i] {
                let c = CancellationType::from_u32(*t);
                if c.is_some() {
                    return c;
                }
            }
            i = i + 1;
        }
        None
    }

    /// The first Result-Code.
    pub fn result_code(&self) -> (r: Option<u32>)
        ensures
            r == first_result_code(self.avps@),
    {
        let mut i: usize = 0;
        assert(self.avps@.skip(0) =~= self.avps@);
        while i < self.avps.len()
            invariant
                i <= self.avps@.len(),
                first_result_code(self.avps@) == first_result_code(self.avps@.skip(i as int)),
            decreases self.avps@.len() - i,
        {
            assert(self.avps@.skip(i as int)[0] == self.avps@[i as int]);
            assert(self.avps@.skip(i as int).skip(1) =~= self.avps@.skip(i + 1));
            if let S6aClrAvp::ResultCode(c) = &self.avps[i] {
                return Some(*c);
            }
            i = i + 1;
        }
        None
    }
}

#[derive(Debug, Clone)]
pub struct MmeSubscriberSession {
    pub imsi: String,
    pub is_active: bool,
    pub cancellation_reason: Option<CancellationType>,
}

/// A session as (IMSI, active, reason).
pub open spec fn session_view(s: MmeSubscriberSession) -> (Seq<char>, bool, Option<CancellationType>) {
    (s.imsi@, s.is_active, s.cancellation_reason)
}

pub open spec fn sessions_view(v: Seq<MmeSubscriberSession>) -> Seq<(Seq<char>, bool, Option<CancellationType>)> {
    v.map_values(|s: MmeSubscriberSession| session_view(s))
}

/// The first position of `imsi` among the sessions.
pub open spec fn first_pos(v: Seq<(Seq<char>, bool, Option<CancellationType>)>, imsi: Seq<char>) -> Option<int>
    decreases v.len(),
{
    if v.len() == 0 {
        None
    } else if v[0].0 == imsi {
        Some(0)
    } else {
        match first_pos(v.skip(1), imsi) {
            Some(i) => Some(i + 1),
            None => None,
        }
    }
}

proof fn lemma_first_pos(v: Seq<(Seq<char>, bool, Option<CancellationType>)>, imsi: Seq<char>)
    ensures
        match first_pos(v, imsi) {
            Some(i) => 0 <= i < v.len() && v[i].0 == imsi && forall|j: int| 0 <= j < i ==> v[j].0 != imsi,
            None => forall|j: int| 0 <= j < v.len() ==> v[j].0 != imsi,
        },
    decreases v.len(),
{
    if v.len() > 0 {
        lemma_first_pos(v.skip(1), imsi);
        assert forall|j: int| 1 <= j < v.len() implies v[j] == v.skip(1)[j - 1] by {}
    }
}

pub struct S6aClrEngine {
    pub mme_id: String,
    pub realm: String,
    pub active_subscribers: Vec<MmeSubscriberSession>,
    pub total_clr_received: u64,
    pub total_cancelled_success: u64,
    pub total_rejected: u64,
}

impl S6aClrEngine {
    pub fn new(mme_id: &str, realm: &str) -> (r: Self)
        ensures
            r.mme_id@ == mme_id@,
            r.realm@ == realm@,
            r.active_subscribers@.len() == 0,
            r.total_clr_received == 0,
            r.total_cancelled_success == 0,
            r.total_rejected == 0,
    {
        Self {
            mme_id: mme_id.to_owned(),
            realm: realm.to_owned(),
            active_subscribers: Vec::new(),
            total_clr_received: 0,
            total_cancelled_success: 0,
            total_rejected: 0,
        }
    }

    fn position(&self, imsi: &str) -> (r: Option<usize>)
        ensures
            match r {
                Some(i) => first_pos(sessions_view(self.active_subscribers@), imsi@) == Some(i as int) && i < self.active_subscribers@.len(),
                None => first_pos(sessions_view(self.active_subscribers@), imsi@) is None,
            },
    {
        let ghost sv = sessions_view(self.active_subscribers@);
        proof {
            lemma_first_pos(sv, imsi@);
        }
        let mut i: usize = 0;
        while i < self.active_subscribers.len()
            invariant
                i <= self.active_subscribers@.len(),
                sv == sessions_view(self.active_subscribers@),
                forall|j: int| 0 <= j < i ==> #[trigger] sv[j].0 != imsi@,
                match first_pos(sv, imsi@) {
                    Some(k) => 0 <= k < sv.len() && sv[k].0 == imsi@ && forall|j: int| 0 <= j < k ==> sv[j].0 != imsi@,
                    None => forall|j: int| 0 <= j < sv.len() ==> sv[j].0 != imsi@,
                },
            decreases self.active_subscribers@.len() - i,
        {
            assert(sv[i as int].0 == self.active_subscribers@[i as int].imsi@);
            if str_eq(self.active_subscribers[i].imsi.as_str(), imsi) {
                proof {
                    let k = first_pos(sv, imsi@);
                    if k is None {
                        assert(sv[i as int].0 != imsi@);
                    } else if k.unwrap() > i {
                        assert(sv[i as int].0 != imsi@);
                    }
                }
                return Some(i);
            }
            i = i + 1;
        }
        proof {
            if first_pos(sv, imsi@) is Some {
                let k = first_pos(sv, imsi@).unwrap();
                assert(sv[k].0 != imsi@);
            }
        }
        None
    }

    /// Attaches `imsi`: its first session becomes active with no cancellation reason, or a new
    /// active session is added.
    pub fn attach_subscriber(&mut self, imsi: &str)
        ensures
            sessions_view(final(self).active_subscribers@) == match first_pos(sessions_view(old(self).active_subscribers@), imsi@) {
                Some(i) => sessions_view(old(self).active_subscribers@).update(i, (imsi@, true, None)),
                None => sessions_view(old(self).active_subscribers@).push((imsi@, true, None)),
            },
            final(self).mme_id == old(self).mme_id,
            final(self).realm == old(self).realm,
            final(self).total_clr_received == old(self).total_clr_received,
            final(self).total_cancelled_success == old(self).total_cancelled_success,
            final(self).total_rejected == old(self).total_rejected,
    {
        let ghost s0 = sessions_view(self.active_subscribers@);
        match self.position(imsi) {
            Some(i) => {
                let k = self.active_subscribers[i].imsi.clone();
                self.active_subscribers.set(i, MmeSubscriberSession { imsi: k, is_active: true, cancellation_reason: None });
                proof {
                    lemma_first_pos(s0, imsi@);
                }
                assert(sessions_view(self.active_subscribers@) =~= s0.update(i as int, (imsi@, true, None)));
            },
            None => {
                self.active_subscribers.push(MmeSubscriberSession { imsi: imsi.to_owned(), is_active: true, cancellation_reason: None });
                assert(sessions_view(self.active_subscribers@) =~= s0.push((imsi@, true, None)));
            },
        }
    }

    /// Handles a CLR. Without a User-Name, or for an IMSI with no session, the answer carries
    /// 5001 and the rejection count grows; otherwise the first session for the IMSI becomes
    /// inactive with the request's cancellation type (MME update when it names none), and the
    /// answer carries 2001.
    pub fn process_clr(&mut self, clr: &S6aClrMessage) -> (r: S6aClrMessage)
        requires
            old(self).total_clr_received < u64::MAX,
            old(self).total_cancelled_success < u64::MAX,
            old(self).total_rejected < u64::MAX,
        ensures
            final(self).total_clr_received == old(self).total_clr_received + 1,
            final(self).mme_id == old(self).mme_id,
            final(self).realm == old(self).realm,
            ({
                let sv = sessions_view(old(self).active_subscribers@);
                let found = match first_user_name(clr.avps@) {
                    Some(imsi) => first_pos(sv, imsi),
                    None => None,
                };
                match found {
                    Some(i) => {
                        let reason = match first_cancellation(clr.avps@) {
                            Some(t) => t,
                            None => CancellationType::MmeUpdateProcedure,
                        };
                        &&& is_cla(r, clr.session_id@, old(self).mme_id@, old(self).realm@, RESULT_CODE_SUCCESS)
                        &&& sessions_view(final(self).active_subscribers@) == sv.update(i, (sv[i].0, false, Some(reason)))
                        &&& final(self).total_cancelled_success == old(self).total_cancelled_success + 1
                        &&& final(self).total_rejected == old(self).total_rejected
                    },
                    None => {
                        &&& is_cla(r, clr.session_id@, old(self).mme_id@, old(self).realm@, RESULT_CODE_USER_UNKNOWN)
                        &&& sessions_view(final(self).active_subscribers@) == sv
                        &&& final(self).total_cancelled_success == old(self).total_cancelled_success
                        &&& final(self).total_rejected == old(self).total_rejected + 1
                    },
                }
            }),
    {
        self.total_clr_received = self.total_clr_received + 1;
        let imsi = match clr.imsi() {
            Some(i) => i,
            None => {
                self.total_rejected = self.total_rejected + 1;
                return S6aClrMessage::new_cla(clr.session_id.as_str(), self.mme_id.as_str(), self.realm.as_str(), RESULT_CODE_USER_UNKNOWN);
            },
        };
        let cancel_type = match clr.cancellation_type() {
            Some(t) => t,
            None => CancellationType::MmeUpdateProcedure,
        };
        let ghost s0 = sessions_view(self.active_subscribers@);
        match self.position(imsi) {
            Some(i) => {
                let k = self.active_subscribers[i].imsi.clone();
                self.active_subscribers.set(i, MmeSubscriberSession { imsi: k, is_active: false, cancellation_reason: Some(cancel_type) });
                proof {
                    lemma_first_pos(s0, imsi@);
                }
                assert(sessions_view(self.active_subscribers@) =~= s0.update(i as int, (s0[i as int].0, false, Some(cancel_type))));
                self.total_cancelled_success = self.total_cancelled_success + 1;
                S6aClrMessage::new_cla(clr.session_id.as_str(), self.mme_id.as_str(), self.realm.as_str(), RESULT_CODE_SUCCESS)
            },
            None => {
                self.total_rejected = self.total_rejected + 1;
                S6aClrMessage::new_cla(clr.session_id.as_str(), self.mme_id.as_str(), self.realm.as_str(), RESULT_CODE_USER_UNKNOWN)
            },
        }
    }
}

} // verus!
