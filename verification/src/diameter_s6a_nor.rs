//! S6a/S6d Notify-Request / Answer (NOR / NOA, command 323): the MME reports SRVCC support,
//! SMS readiness and terminal changes to the HSS.
use vstd::prelude::*;
use crate::text::{str_eq, first_index, lemma_first_index};

verus! {

pub const DIAMETER_APPLICATION_S6A: u32 = 16_777_251;
pub const DIAMETER_CMD_NOTIFY: u32 = 323;
pub const NOR_FLAG_SINGLE_REGISTRATION: u32 = 1;
pub const NOR_FLAG_SRVCC_SUPPORT: u32 = 2;
pub const NOR_FLAG_INITIAL_ATTACH: u32 = 4;
pub const NOR_FLAG_READY_FOR_SM: u32 = 8;
pub const RESULT_CODE_SUCCESS: u32 = 2001;
pub const RESULT_CODE_USER_UNKNOWN: u32 = 5001;

#[derive(Debug, Clone, PartialEq, Eq)]
pub enum S6aNorAvp {
    SessionId(String),
    OriginHost(String),
    OriginRealm(String),
    DestinationHost(String),
    DestinationRealm(String),
    UserName(String),
    NorFlags(u32),
    TerminalImei(String),
    ResultCode(u32),
}

#[derive(Debug, Clone)]
pub struct S6aNorMessage {
    pub command_code: u32,
    pub application_id: u32,
    pub is_request: bool,
    pub session_id: String,
    pub avps: Vec<S6aNorAvp>,
}
/// The first User-Name.
pub open spec fn first_user_name(avps: Seq<S6aNorAvp>) -> Option<Seq<char>>
    decreases avps.len(),
{
    if avps.len() == 0 {
        None
    } else if let S6aNorAvp::UserName(s) = avps[0] {
        Some(s@)
    } else {
        first_user_name(avps.skip(1))
    }
}
/// The first NOR-Flags value.
pub open spec fn first_flags(avps: Seq<S6aNorAvp>) -> Option<u32>
    decreases avps.len(),
{
    if avps.len() == 0 {
        None
    } else if let S6aNorAvp::NorFlags(s) = avps[0] {
        Some(s)
    } else {
        first_flags(avps.skip(1))
    }
}
/// The first Terminal IMEI.
pub open spec fn first_imei(avps: Seq<S6aNorAvp>) -> Option<Seq<char>>
    decreases avps.len(),
{
    if avps.len() == 0 {
        None
    } else if let S6aNorAvp::TerminalImei(s) = avps[0] {
        Some(s@)
    } else {
        first_imei(avps.skip(1))
    }
}
/// The first Result-Code.
pub open spec fn first_result_code(avps: Seq<S6aNorAvp>) -> Option<u32>
    decreases avps.len(),
{
    if avps.len() == 0 {
        None
    } else if let S6aNorAvp::ResultCode(s) = avps[0] {
        Some(s)
    } else {
        first_result_code(avps.skip(1))
    }
}

/// The shape of a Notify-Answer.
pub open spec fn is_noa(r: S6aNorMessage, session_id: Seq<char>, host: Seq<char>, realm: Seq<char>, code: u32) -> bool {
    &&& r.command_code == DIAMETER_CMD_NOTIFY
    &&& r.application_id == DIAMETER_APPLICATION_S6A
    &&& !r.is_request
    &&& r.session_id@ == session_id
    &&& r.avps@.len() == 4
    &&& r.avps@[0] matches S6aNorAvp::SessionId(s) && s@ == session_id
    &&& r.avps@[1] matches S6aNorAvp::OriginHost(s) && s@ == host
    &&& r.avps@[2] matches S6aNorAvp::OriginRealm(s) && s@ == realm
    &&& r.avps@[3] == S6aNorAvp::ResultCode(code)
    &&& first_result_code(r.avps@) == Some(code)
}

impl S6aNorMessage {
    /// A Notify-Request for `imsi` with its flags and, when given, the terminal's IMEI.
    pub fn new_nor(
        session_id: &str,
        origin_host: &str,
        origin_realm: &str,
        dest_host: &str,
        dest_realm: &str,
        imsi: &str,
        nor_flags: u32,
        terminal_imei: Option<&str>,
    ) -> (r: Self)
        ensures
            r.command_code == DIAMETER_CMD_NOTIFY,
            r.application_id == DIAMETER_APPLICATION_S6A,
            r.is_request,
            r.session_id@ == session_id@,
            r.avps@.len() == 7 + if terminal_imei is Some { 1int } else { 0int },
            r.avps@[0] matches S6aNorAvp::SessionId(s) && s@ == session_id@,
            r.avps@[1] matches S6aNorAvp::OriginHost(s) && s@ == origin_host@,
            r.avps@[2] matches S6aNorAvp::OriginRealm(s) && s@ == origin_realm@,
            r.avps@[3] matches S6aNorAvp::DestinationHost(s) && s@ == dest_host@,
            r.avps@[4] matches S6aNorAvp::DestinationRealm(s) && s@ == dest_realm@,
            r.avps@[5] matches S6aNorAvp::UserName(s) && s@ == imsi@,
            r.avps@[6] == S6aNorAvp::NorFlags(nor_flags),
            terminal_imei matches Some(im) ==> (r.avps@[7] matches S6aNorAvp::TerminalImei(s) && s@ == im@),
            first_user_name(r.avps@) == Some(imsi@),
            first_flags(r.avps@) == Some(nor_flags),
            first_imei(r.avps@) == match terminal_imei {
                Some(im) => Some(im@),
                None => None,
            },
    {
        let mut avps = vec![
            S6aNorAvp::SessionId(session_id.to_owned()),
            S6aNorAvp::OriginHost(origin_host.to_owned()),
            S6aNorAvp::OriginRealm(origin_realm.to_owned()),
            S6aNorAvp::DestinationHost(dest_host.to_owned()),
            S6aNorAvp::DestinationRealm(dest_realm.to_owned()),
            S6aNorAvp::UserName(imsi.to_owned()),
            S6aNorAvp::NorFlags(nor_flags),
        ];
        if let Some(imei) = terminal_imei {
            avps.push(S6aNorAvp::TerminalImei(imei.to_owned()));
        }
        proof {
            reveal_with_fuel(first_user_name, 7);
            reveal_with_fuel(first_flags, 8);
            reveal_with_fuel(first_imei, 9);
        }
        Self {
            command_code: DIAMETER_CMD_NOTIFY,
            application_id: DIAMETER_APPLICATION_S6A,
            is_request: true,
            session_id: session_id.to_owned(),
            avps,
        }
    }

    /// A Notify-Answer with `result_code`.
    pub fn new_noa(session_id: &str, origin_host: &str, origin_realm: &str, result_code: u32) -> (r: Self)
        ensures
            is_noa(r, session_id@, origin_host@, origin_realm@, result_code),
    {
        let r = Self {
            command_code: DIAMETER_CMD_NOTIFY,
            application_id: DIAMETER_APPLICATION_S6A,
            is_request: false,
            session_id: session_id.to_owned(),
            avps: vec![
                S6aNorAvp::SessionId(session_id.to_owned()),
                S6aNorAvp::OriginHost(origin_host.to_owned()),
                S6aNorAvp::OriginRealm(origin_realm.to_owned()),
                S6aNorAvp::ResultCode(result_code),
            ],
        };
        proof {
            reveal_with_fuel(first_result_code, 5);
        }
        r
    }

    /// The IMSI of the first User-Name.
    pub fn imsi(&self) -> (r: Option<&str>)
        ensures
            match r {
                Some(s) => first_user_name(self.avps@) == Some(s@),
                None => first_user_name(self.avps@) is None,
            },
    {
        let mut i: usize = 0;
        assert(self.avps@.skip(0) =~= self.avps@);
        while i < self.avps.len()
            invariant
                i <= self.avps@.len(),
                first_user_name(self.avps@) == first_user_name(self.avps@.skip(i as int)),
            decreases self.avps@.len() - i,
        {
            assert(self.avps@.skip(i as int)[0] == self.avps@[i as int]);
            assert(self.avps@.skip(i as int).skip(1) =~= self.avps@.skip(i + 1));
            if let S6aNorAvp::UserName(s) = &self.avps[i] {
                return Some(s.as_str());
            }
            i = i + 1;
        }
        None
    }
    /// The first NOR-Flags value.
    pub fn nor_flags(&self) -> (r: Option<u32>)
        ensures
            r == first_flags(self.avps@),
    {
        let mut i: usize = 0;
        assert(self.avps@.skip(0) =~= self.avps@);
        while i < self.avps.len()
            invariant
                i <= self.avps@.len(),
                first_flags(self.avps@) == first_flags(self.avps@.skip(i as int)),
            decreases self.avps@.len() - i,
        {
            assert(self.avps@.skip(i as int)[0] == self.avps@[i as int]);
            assert(self.avps@.skip(i as int).skip(1) =~= self.avps@.skip(i + 1));
            if let S6aNorAvp::NorFlags(s) = &self.avps[i] {
                return Some(*s);
            }
            i = i + 1;
        }
        None
    }
    /// The first Terminal IMEI.
    pub fn imei(&self) -> (r: Option<&str>)
        ensures
            match r {
                Some(s) => first_imei(self.avps@) == Some(s@),
                None => first_imei(self.avps@) is None,
            },
    {
        let mut i: usize = 0;
        assert(self.avps@.skip(0) =~= self.avps@);
        while i < self.avps.len()
            invariant
                i <= self.avps@.len(),
                first_imei(self.avps@) == first_imei(self.avps@.skip(i as int)),
            decreases self.avps@.len() - i,
        {
            assert(self.avps@.skip(i as int)[0] == self.avps@[i as int]);
            assert(self.avps@.skip(i as int).skip(1) =~= self.avps@.skip(i + 1));
            if let S6aNorAvp::TerminalImei(s) = &self.avps[i] {
                return Some(s.as_str());
            }
            i = i + 1;
        }
        None
    }
    /// The first Result-Code.
    pub fn result_code(&self) -> (r: Option<u32>)
        ensures
            r == first_result_code(self.avps@),
    {
        let mut i: usize = 0;
        assert(self.avps@.skip(0) =~= self.avps@);
        while i < self.avps.len()
            invariant
                i <= self.avps@.len(),
                first_result_code(self.avps@) == first_result_code(self.avps@.skip(i as int)),
            decreases self.avps@.len() - i,
        {
            assert(self.avps@.skip(i as int)[0] == self.avps@[i as int]);
            assert(self.avps@.skip(i as int).skip(1) =~= self.avps@.skip(i + 1));
            if let S6aNorAvp::ResultCode(s) = &self.avps[i] {
                return Some(*s);
            }
            i = i + 1;
        }
        None
    }
}

#[derive(Debug, Clone)]
pub struct HssNotifiedState {
    pub imsi: String,
    pub srvcc_supported: bool,
    pub ready_for_sm: bool,
    pub current_imei: Option<String>,
}

/// A record as (IMSI, SRVCC, ready for SM, IMEI).
pub open spec fn state_view(s: HssNotifiedState) -> (Seq<char>, bool, bool, Option<Seq<char>>) {
    (s.imsi@, s.srvcc_supported, s.ready_for_sm, match s.current_imei {
        Some(i) => Some(i@),
        None => None,
    })
}

pub open spec fn states_view(v: Seq<HssNotifiedState>) -> Seq<(Seq<char>, bool, bool, Option<Seq<char>>)> {
    v.map_values(|s: HssNotifiedState| state_view(s))
}

pub open spec fn imsis_of(v: Seq<HssNotifiedState>) -> Seq<Seq<char>> {
    v.map_values(|s: HssNotifiedState| s.imsi@)
}

/// A record after a notification with `flags` and `imei`.
pub open spec fn notified(s: (Seq<char>, bool, bool, Option<Seq<char>>), flags: u32, imei: Option<Seq<char>>) -> (Seq<char>, bool, bool, Option<Seq<char>>) {
    (s.0, flags & NOR_FLAG_SRVCC_SUPPORT != 0, flags & NOR_FLAG_READY_FOR_SM != 0, if imei is Some { imei } else { s.3 })
}

pub struct S6aNorEngine {
    pub hss_id: String,
    pub realm: String,
    pub subscribers: Vec<HssNotifiedState>,
    pub total_nor_received: u64,
    pub total_nor_accepted: u64,
    pub total_nor_rejected: u64,
}

impl S6aNorEngine {
    pub fn new(hss_id: &str, realm: &str) -> (r: Self)
        ensures
            r.hss_id@ == hss_id@,
            r.realm@ == realm@,
            r.subscribers@.len() == 0,
            r.total_nor_received == 0,
            r.total_nor_accepted == 0,
            r.total_nor_rejected == 0,
    {
        Self {
            hss_id: hss_id.to_owned(),
            realm: realm.to_owned(),
            subscribers: Vec::new(),
            total_nor_received: 0,
            total_nor_accepted: 0,
            total_nor_rejected: 0,
        }
    }

    /// The position of the first record for `key`.
    fn position(&self, key: &str) -> (r: Option<usize>)
        ensures
            match r {
                Some(i) => first_index(imsis_of(self.subscribers@), key@) == Some(i as int) && i < self.subscribers@.len(),
                None => first_index(imsis_of(self.subscribers@), key@) is None,
            },
    {
        let ghost kv = imsis_of(self.subscribers@);
        proof {
            lemma_first_index(kv, key@);
        }
        let mut i: usize = 0;
        while i < self.subscribers.len()
            invariant
                i <= self.subscribers@.len(),
                kv == imsis_of(self.subscribers@),
                kv.len() == self.subscribers@.len(),
                forall|j: int| 0 <= j < i ==> #[trigger] kv[j] != key@,
                match first_index(kv, key@) {
                    Some(k) => 0 <= k < kv.len() && kv[k] == key@ && forall|j: int| 0 <= j < k ==> kv[j] != key@,
                    None => forall|j: int| 0 <= j < kv.len() ==> kv[j] != key@,
                },
            decreases self.subscribers@.len() - i,
        {
            assert(kv[i as int] == self.subscribers@[i as int].imsi@);
            if str_eq(self.subscribers[i].imsi.as_str(), key) {
                proof {
                    let k = first_index(kv, key@);
                    if k is None {
                        assert(kv[i as int] != key@);
                    } else if k.unwrap() > i {
                        assert(kv[i as int] != key@);
                    }
                }
                return Some(i);
            }
            i = i + 1;
        }
        proof {
            if first_index(kv, key@) is Some {
                let k = first_index(kv, key@).unwrap();
                assert(kv[k] != key@);
            }
        }
        None
    }

    /// Provisions `imsi` with no capabilities, unless it is already there.
    pub fn register_subscriber(&mut self, imsi: &str)
        ensures
            states_view(final(self).subscribers@) == if imsis_of(old(self).subscribers@).contains(imsi@) {
                states_view(old(self).subscribers@)
            } else {
                states_view(old(self).subscribers@).push((imsi@, false, false, None))
            },
            final(self).hss_id == old(self).hss_id,
            final(self).realm == old(self).realm,
            final(self).total_nor_received == old(self).total_nor_received,
            final(self).total_nor_accepted == old(self).total_nor_accepted,
            final(self).total_nor_rejected == old(self).total_nor_rejected,
    {
        proof {
            lemma_first_index(imsis_of(self.subscribers@), imsi@);
        }
        if self.position(imsi).is_none() {
            let ghost s0 = states_view(self.subscribers@);
            self.subscribers.push(HssNotifiedState { imsi: imsi.to_owned(), srvcc_supported: false, ready_for_sm: false, current_imei: None });
            assert(states_view(self.subscribers@) =~= s0.push((imsi@, false, false, None)));
        }
    }

    /// Handles a NOR. Without a User-Name, or for an IMSI that is not provisioned, the answer
    /// carries 5001 and the rejection count grows. Otherwise the first record for the IMSI takes
    /// its SRVCC and SMS readiness from the flags (none when absent) and the IMEI when one is
    /// sent; the answer carries 2001.
    pub fn process_nor(&mut self, nor: &S6aNorMessage) -> (r: S6aNorMessage)
        requires
            old(self).total_nor_received < u64::MAX,
            old(self).total_nor_accepted < u64::MAX,
            old(self).total_nor_rejected < u64::MAX,
        ensures
            final(self).total_nor_received == old(self).total_nor_received + 1,
            final(self).hss_id == old(self).hss_id,
            final(self).realm == old(self).realm,
            ({
                let sv = states_view(old(self).subscribers@);
                let found = match first_user_name(nor.avps@) {
                    Some(imsi) => first_index(imsis_of(old(self).subscribers@), imsi),
                    None => None,
                };
                match found {
                    Some(i) => {
                        let flags = match first_flags(nor.avps@) { Some(f) => f, None => 0u32 };
                        &&& is_noa(r, nor.session_id@, old(self).hss_id@, old(self).realm@, RESULT_CODE_SUCCESS)
                        &&& states_view(final(self).subscribers@) == sv.update(i, notified(sv[i], flags, first_imei(nor.avps@)))
                        &&& final(self).total_nor_accepted == old(self).total_nor_accepted + 1
                        &&& final(self).total_nor_rejected == old(self).total_nor_rejected
                    },
                    None => {
                        &&& is_noa(r, nor.session_id@, old(self).hss_id@, old(self).realm@, RESULT_CODE_USER_UNKNOWN)
                        &&& states_view(final(self).subscribers@) == sv
                        &&& final(self).total_nor_accepted == old(self).total_nor_accepted
                        &&& final(self).total_nor_rejected == old(self).total_nor_rejected + 1
                    },
                }
            }),
    {
        self.total_nor_received = self.total_nor_received + 1;
        let imsi = match nor.imsi() {
            Some(i) => i,
            None => {
                self.total_nor_rejected = self.total_nor_rejected + 1;
                return S6aNorMessage::new_noa(nor.session_id.as_str(), self.hss_id.as_str(), self.realm.as_str(), RESULT_CODE_USER_UNKNOWN);
            },
        };
        let flags = match nor.nor_flags() {
            Some(f) => f,
            None => 0,
        };
        let imei = nor.imei();
        let ghost s0 = states_view(self.subscribers@);
        match self.position(imsi) {
            Some(i) => {
                let old_rec = &self.subscribers[i];
                let new_imei = match imei {
                    Some(im) => Some(im.to_owned()),
                    None => match &old_rec.current_imei {
                        Some(s) => Some(s.clone()),
                        None => None,
                    },
                };
                let rec = HssNotifiedState {
                    imsi: old_rec.imsi.clone(),
                    srvcc_supported: (flags & NOR_FLAG_SRVCC_SUPPORT) != 0,
                    ready_for_sm: (flags & NOR_FLAG_READY_FOR_SM) != 0,
                    current_imei: new_imei,
                };
                assert(s0[i as int] == state_view(self.subscribers@[i as int]));
                assert(state_view(rec) == notified(s0[i as int], flags, first_imei(nor.avps@)));
                self.subscribers.set(i, rec);
                assert(states_view(self.subscribers@) =~= s0.update(i as int, notified(s0[i as int], flags, first_imei(nor.avps@))));
                self.total_nor_accepted = self.total_nor_accepted + 1;
                S6aNorMessage::new_noa(nor.session_id.as_str(), self.hss_id.as_str(), self.realm.as_str(), RESULT_CODE_SUCCESS)
            },
            None => {
                self.total_nor_rejected = self.total_nor_rejected + 1;
                S6aNorMessage::new_noa(nor.session_id.as_str(), self.hss_id.as_str(), self.realm.as_str(), RESULT_CODE_USER_UNKNOWN)
            },
        }
    }
}

} // verus!
