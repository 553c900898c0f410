//! S6a/S6d Purge-UE-Request / Answer (PUR / PUA, command 321): the HSS marks a detached
//! subscriber as purged and logs the purge.
use vstd::prelude::*;

verus! {

pub const DIAMETER_APPLICATION_S6A: u32 = 16_777_251;
pub const DIAMETER_CMD_PURGE_UE: u32 = 321;
pub const RESULT_CODE_SUCCESS: u32 = 2001;
pub const RESULT_CODE_USER_UNKNOWN: u32 = 5001;
pub const PUA_FLAG_FREEZE_M_TMSI: u32 = 0x0000_0001;
pub const PUA_FLAG_FREEZE_P_TMSI: u32 = 0x0000_0002;

#[derive(Debug, Clone, PartialEq, Eq)]
pub enum S6aPurAvp {
    SessionId(String),
    OriginHost(String),
    OriginRealm(String),
    UserName(String),
    PuaFlags(u32),
    ResultCode(u32),
}

#[derive(Debug, Clone)]
pub struct S6aPurMessage {
    pub command_code: u32,
    pub application_id: u32,
    pub is_request: bool,
    pub avps: Vec<S6aPurAvp>,
}

/// The first User-Name in `avps`.
pub open spec fn first_user_name(avps: Seq<S6aPurAvp>) -> Option<Seq<char>>
    decreases avps.len(),
{
    if avps.len() == 0 {
        None
    } else if let S6aPurAvp::UserName(s) = avps[0] {
        Some(s@)
    } else {
        first_user_name(avps.skip(1))
    }
}

/// The first Session-Id in `avps`.
pub open spec fn first_session_id(avps: Seq<S6aPurAvp>) -> Option<Seq<char>>
    decreases avps.len(),
{
    if avps.len() == 0 {
        None
    } else if let S6aPurAvp::SessionId(s) = avps[0] {
        Some(s@)
    } else {
        first_session_id(avps.skip(1))
    }
}

/// The first PUA-Flags value in `avps`.
pub open spec fn first_flags(avps: Seq<S6aPurAvp>) -> Option<u32>
    decreases avps.len(),
{
    if avps.len() == 0 {
        None
    } else if let S6aPurAvp::PuaFlags(f) = avps[0] {
        Some(f)
    } else {
        first_flags(avps.skip(1))
    }
}

/// The first Result-Code in `avps`.
pub open spec fn first_result_code(avps: Seq<S6aPurAvp>) -> Option<u32>
    decreases avps.len(),
{
    if avps.len() == 0 {
        None
    } else if let S6aPurAvp::ResultCode(c) = avps[0] {
        Some(c)
    } else {
        first_result_code(avps.skip(1))
    }
}

/// Shape of a PUR or PUA: command, application, direction and the three AVPs.
pub open spec fn pur_shape(m: S6aPurMessage, request: bool) -> bool {
    &&& m.command_code == DIAMETER_CMD_PURGE_UE
    &&& m.application_id == DIAMETER_APPLICATION_S6A
    &&& m.is_request == request
    &&& m.avps@.len() == 3
}

impl S6aPurMessage {
    /// A Purge-UE-Request: Session-Id, User-Name and PUA-Flags.
    pub fn new_pur(session_id: &str, imsi: &str, flags: u32) -> (r: Self)
        ensures
            pur_shape(r, true),
            r.avps@[0] matches S6aPurAvp::SessionId(s) && s@ == session_id@,
            r.avps@[1] matches S6aPurAvp::UserName(s) && s@ == imsi@,
            r.avps@[2] == S6aPurAvp::PuaFlags(flags),
    {
        Self {
            command_code: DIAMETER_CMD_PURGE_UE,
            application_id: DIAMETER_APPLICATION_S6A,
            is_request: true,
            avps: vec![
                S6aPurAvp::SessionId(session_id.to_owned()),
                S6aPurAvp::UserName(imsi.to_owned()),
                S6aPurAvp::PuaFlags(flags),
            ],
        }
    }

    /// A Purge-UE-Answer: Session-Id, Result-Code and PUA-Flags.
    pub fn new_pua(session_id: &str, result_code: u32, flags: u32) -> (r: Self)
        ensures
            pur_shape(r, false),
            r.avps@[0] matches S6aPurAvp::SessionId(s) && s@ == session_id@,
            r.avps@[1] == S6aPurAvp::ResultCode(result_code),
            r.avps@[2] == S6aPurAvp::PuaFlags(flags),
            first_session_id(r.avps@) == Some(session_id@),
            first_result_code(r.avps@) == Some(result_code),
            first_flags(r.avps@) == Some(flags),
    {
        let r = Self {
            command_code: DIAMETER_CMD_PURGE_UE,
            application_id: DIAMETER_APPLICATION_S6A,
            is_request: false,
            avps: vec![
                S6aPurAvp::SessionId(session_id.to_owned()),
                S6aPurAvp::ResultCode(result_code),
                S6aPurAvp::PuaFlags(flags),
            ],
        };
        proof {
            reveal_with_fuel(first_result_code, 3);
            reveal_with_fuel(first_flags, 4);
            reveal_with_fuel(first_session_id, 2);
        }
        r
    }

    /// The IMSI carried in the first User-Name AVP.
    pub fn imsi(&self) -> (r: Option<&str>)
        ensures
            match r {
                Some(s) => first_user_name(self.avps@) == Some(s@),
                None => first_user_name(self.avps@) is None,
            },
    {
        let mut i: usize = 0;
        assert(self.avps@.skip(0) =~= self.avps@);
        while i < self.avps.len()
            invariant
                i <= self.avps@.len(),
                first_user_name(self.avps@) == first_user_name(self.avps@.skip(i as int)),
            decreases self.avps@.len() - i,
        {
            assert(self.avps@.skip(i as int)[0] == self.avps@[i as int]);
            assert(self.avps@.skip(i as int).skip(1) =~= self.avps@.skip(i + 1));
            if let S6aPurAvp::UserName(v) = &self.avps[i] {
                return Some(v.as_str());
            }
            i = i + 1;
        }
        None
    }

    /// The value of the first PUA-Flags AVP, or 0 when there is none.
    pub fn pua_flags(&self) -> (r: u32)
        ensures
            r == match first_flags(self.avps@) {
                Some(f) => f,
                None => 0,
            },
    {
        let mut i: usize = 0;
        assert(self.avps@.skip(0) =~= self.avps@);
        while i < self.avps.len()
            invariant
                i <= self.avps@.len(),
                first_flags(self.avps@) == first_flags(self.avps@.skip(i as int)),
            decreases self.avps@.len() - i,
        {
            assert(self.avps@.skip(i as int)[0] == self.avps@[i as int]);
            assert(self.avps@.skip(i as int).skip(1) =~= self.avps@.skip(i + 1));
            if let S6aPurAvp::PuaFlags(f) = &self.avps[i] {
                return *f;
            }
            i = i + 1;
        }
        0
    }

    /// The value of the first Result-Code AVP.
    pub fn result_code(&self) -> (r: Option<u32>)
        ensures
            r == first_result_code(self.avps@),
    {
        let mut i: usize = 0;
        assert(self.avps@.skip(0) =~= self.avps@);
        while i < self.avps.len()
            invariant
                i <= self.avps@.len(),
                first_result_code(self.avps@) == first_result_code(self.avps@.skip(i as int)),
            decreases self.avps@.len() - i,
        {
            assert(self.avps@.skip(i as int)[0] == self.avps@[i as int]);
            assert(self.avps@.skip(i as int).skip(1) =~= self.avps@.skip(i + 1));
            if let S6aPurAvp::ResultCode(c) = &self.avps[i] {
                return Some(*c);
            }
            i = i + 1;
        }
        None
    }

    /// The first Session-Id.
    pub fn session_id(&self) -> (r: Option<&str>)
        ensures
            match r {
                Some(s) => first_session_id(self.avps@) == Some(s@),
                None => first_session_id(self.avps@) is None,
            },
    {
        let mut i: usize = 0;
        assert(self.avps@.skip(0) =~= self.avps@);
        while i < self.avps.len()
            invariant
                i <= self.avps@.len(),
                first_session_id(self.avps@) == first_session_id(self.avps@.skip(i as int)),
            decreases self.avps@.len() - i,
        {
            assert(self.avps@.skip(i as int)[0] == self.avps@[i as int]);
            assert(self.avps@.skip(i as int).skip(1) =~= self.avps@.skip(i + 1));
            if let S6aPurAvp::SessionId(s) = &self.avps[i] {
                return Some(s.as_str());
            }
            i = i + 1;
        }
        None
    }
}

#[derive(Debug, Clone)]
pub struct PurgeRecord {
    pub imsi: String,
    pub purged_at_ns: u64,
    pub flags: u32,
    pub context_released: bool,
}

/// HSS-side Purge-UE engine: the provisioned subscribers with their attach state, the purge
/// log and a monotonic clock.
pub struct S6aPurEngine {
    subscribers: Vec<(String, bool)>,
    purge_log: Vec<PurgeRecord>,
    clock_ns: u64,
}

/// Whether `imsi` is among the subscribers.
pub open spec fn known_in(subs: Seq<(Seq<char>, bool)>, imsi: Seq<char>) -> bool {
    exists|i: int| 0 <= i < subs.len() && #[trigger] subs[i].0 == imsi
}

/// Whether some entry for `imsi` is attached.
pub open spec fn attached_in(subs: Seq<(Seq<char>, bool)>, imsi: Seq<char>) -> bool {
    exists|i: int| 0 <= i < subs.len() && #[trigger] subs[i].0 == imsi && subs[i].1
}

/// Every entry for `imsi` marked detached, the others unchanged.
pub open spec fn detached(subs: Seq<(Seq<char>, bool)>, imsi: Seq<char>) -> Seq<(Seq<char>, bool)> {
    subs.map_values(|e: (Seq<char>, bool)| if e.0 == imsi { (e.0, false) } else { e })
}

/// The log entry for one purge.
pub open spec fn purge_entry(imsi: Seq<char>, at: u64, flags: u32) -> (Seq<char>, u64, u32, bool) {
    (imsi, at, flags, true)
}

impl S6aPurEngine {
    /// The subscribers with their attach state.
    pub closed spec fn subscriber_entries(&self) -> Seq<(Seq<char>, bool)> {
        self.subscribers@.map_values(|e: (String, bool)| (e.0@, e.1))
    }

    /// The purge log, each record as (IMSI, time, flags, released).
    pub closed spec fn log_entries(&self) -> Seq<(Seq<char>, u64, u32, bool)> {
        self.purge_log@.map_values(|p: PurgeRecord| (p.imsi@, p.purged_at_ns, p.flags, p.context_released))
    }

    pub closed spec fn clock(&self) -> u64 {
        self.clock_ns
    }

    pub fn new() -> (r: Self)
        ensures
            r.subscriber_entries() == Seq::<(Seq<char>, bool)>::empty(),
            r.log_entries() == Seq::<(Seq<char>, u64, u32, bool)>::empty(),
            r.clock() == 0,
    {
        let r = Self { subscribers: Vec::new(), purge_log: Vec::new(), clock_ns: 0 };
        assert(r.subscriber_entries() =~= Seq::<(Seq<char>, bool)>::empty());
        assert(r.log_entries() =~= Seq::<(Seq<char>, u64, u32, bool)>::empty());
        r
    }

    /// Provisions `imsi` as attached, unless it is already known.
    pub fn add_subscriber(&mut self, imsi: &str)
        ensures
            final(self).subscriber_entries() == if known_in(old(self).subscriber_entries(), imsi@) {
                old(self).subscriber_entries()
            } else {
                old(self).subscriber_entries().push((imsi@, true))
            },
            final(self).log_entries() == old(self).log_entries(),
            final(self).clock() == old(self).clock(),
    {
        if !self.is_known(imsi) {
            let ghost s0 = self.subscriber_entries();
            self.subscribers.push((imsi.to_owned(), true));
            assert(self.subscriber_entries() =~= s0.push((imsi@, true)));
        }
    }

    /// Marks every entry for `imsi` detached.
    pub fn detach_subscriber(&mut self, imsi: &str)
        ensures
            final(self).subscriber_entries() == detached(old(self).subscriber_entries(), imsi@),
            final(self).log_entries() == old(self).log_entries(),
            final(self).clock() == old(self).clock(),
    {
        let ghost s0 = self.subscriber_entries();
        let mut i: usize = 0;
        while i < self.subscribers.len()
            invariant
                i <= self.subscribers@.len(),
                self.subscribers@.len() == s0.len(),
                self.log_entries() == old(self).log_entries(),
                self.clock() == old(self).clock(),
                s0 == old(self).subscriber_entries(),
                forall|j: int| 0 <= j < i ==> #[trigger] self.subscriber_entries()[j] == detached(s0, imsi@)[j],
                forall|j: int| i <= j < s0.len() ==> #[trigger] self.subscriber_entries()[j] == s0[j],
            decreases self.subscribers@.len() - i,
        {
            let ghost before = self.subscriber_entries();
            assert(before[i as int] == s0[i as int]);
            assert(before[i as int].0 == self.subscribers@[i as int].0@);
            assert(detached(s0, imsi@)[i as int] == (if s0[i as int].0 == imsi@ { (s0[i as int].0, false) } else { s0[i as int] }));
            if str_is(&self.subscribers[i].0, imsi) {
                let k = self.subscribers[i].0.clone();
                self.subscribers.set(i, (k, false));
                assert(self.subscriber_entries() =~= before.update(i as int, (imsi@, false)));
            } else {
                assert(self.subscriber_entries() =~= before);
            }
            assert forall|j: int| 0 <= j < i + 1 implies #[trigger] self.subscriber_entries()[j] == detached(s0, imsi@)[j] by {
                if j < i {
                    assert(before[j] == detached(s0, imsi@)[j]);
                }
            }
            i = i + 1;
        }
        assert(self.subscriber_entries() =~= detached(s0, imsi@));
    }

    /// Whether `imsi` is provisioned.
    pub fn is_known(&self, imsi: &str) -> (r: bool)
        ensures
            r == known_in(self.subscriber_entries(), imsi@),
    {
        let mut i: usize = 0;
        while i < self.subscribers.len()
            invariant
                i <= self.subscribers@.len(),
                forall|j: int| 0 <= j < i ==> #[trigger] self.subscriber_entries()[j].0 != imsi@,
            decreases self.subscribers@.len() - i,
        {
            if str_is(&self.subscribers[i].0, imsi) {
                assert(self.subscriber_entries()[i as int].0 == imsi@);
                return true;
            }
            assert(self.subscriber_entries()[i as int].0 != imsi@);
            i = i + 1;
        }
        false
    }

    /// Whether some entry for `imsi` is attached.
    pub fn is_attached(&self, imsi: &str) -> (r: bool)
        ensures
            r == attached_in(self.subscriber_entries(), imsi@),
    {
        let mut i: usize = 0;
        while i < self.subscribers.len()
            invariant
                i <= self.subscribers@.len(),
                forall|j: int| 0 <= j < i ==> !(#[trigger] self.subscriber_entries()[j].0 == imsi@ && self.subscriber_entries()[j].1),
            decreases self.subscribers@.len() - i,
        {
            if str_is(&self.subscribers[i].0, imsi) && self.subscribers[i].1 {
                assert(self.subscriber_entries()[i as int].0 == imsi@);
                return true;
            }
            assert(!(self.subscriber_entries()[i as int].0 == imsi@ && self.subscriber_entries()[i as int].1));
            i = i + 1;
        }
        false
    }

    /// Advances the clock by `delta_ns`, saturating.
    pub fn advance_clock(&mut self, delta_ns: u64)
        ensures
            final(self).clock() == old(self).clock().saturating_add(delta_ns),
            final(self).subscriber_entries() == old(self).subscriber_entries(),
            final(self).log_entries() == old(self).log_entries(),
    {
        self.clock_ns = self.clock_ns.saturating_add(delta_ns);
    }

    /// The purge log.
    pub fn purge_log(&self) -> (r: &[PurgeRecord])
        ensures
            r@.map_values(|p: PurgeRecord| (p.imsi@, p.purged_at_ns, p.flags, p.context_released)) == self.log_entries(),
    {
        self.purge_log.as_slice()
    }

    /// Answers a PUR: without a User-Name, or for an unknown IMSI, Result-Code 5001 and no
    /// change; otherwise the subscriber is detached, a purge is logged at the current clock,
    /// and the answer carries 2001. The answer echoes the first Session-Id ("unknown" when
    /// absent) and the PUA flags (0 when no User-Name was sent).
    pub fn process_pur(&mut self, pur: &S6aPurMessage) -> (r: S6aPurMessage)
        ensures
            pur_shape(r, false),
            first_session_id(r.avps@) == Some(match first_session_id(pur.avps@) {
                Some(s) => s,
                None => "unknown"@,
            }),
            match first_user_name(pur.avps@) {
                None => {
                    &&& first_result_code(r.avps@) == Some(RESULT_CODE_USER_UNKNOWN)
                    &&& first_flags(r.avps@) == Some(0u32)
                    &&& final(self).subscriber_entries() == old(self).subscriber_entries()
                    &&& final(self).log_entries() == old(self).log_entries()
                },
                Some(imsi) => {
                    let flags = match first_flags(pur.avps@) { Some(f) => f, None => 0u32 };
                    &&& first_flags(r.avps@) == Some(flags)
                    &&& if known_in(old(self).subscriber_entries(), imsi) {
                        &&& first_result_code(r.avps@) == Some(RESULT_CODE_SUCCESS)
                        &&& final(self).subscriber_entries() == detached(old(self).subscriber_entries(), imsi)
                        &&& final(self).log_entries() == old(self).log_entries().push(
                            purge_entry(imsi, old(self).clock(), flags),
                        )
                    } else {
                        &&& first_result_code(r.avps@) == Some(RESULT_CODE_USER_UNKNOWN)
                        &&& final(self).subscriber_entries() == old(self).subscriber_entries()
                        &&& final(self).log_entries() == old(self).log_entries()
                    }
                },
            },
            final(self).clock() == old(self).clock(),
    {
        let session_id = match pur.session_id() {
            Some(s) => s,
            None => "unknown",
        };
        let imsi = match pur.imsi() {
            Some(i) => i.to_owned(),
            None => {
                return S6aPurMessage::new_pua(session_id, RESULT_CODE_USER_UNKNOWN, 0);
            },
        };
        let flags = pur.pua_flags();
        if !self.is_known(imsi.as_str()) {
            return S6aPurMessage::new_pua(session_id, RESULT_CODE_USER_UNKNOWN, flags);
        }
        self.detach_subscriber(imsi.as_str());
        let ghost l0 = self.log_entries();
        let ghost im = imsi@;
        self.purge_log.push(PurgeRecord { imsi, purged_at_ns: self.clock_ns, flags, context_released: true });
        assert(self.log_entries() =~= l0.push(purge_entry(im, self.clock_ns, flags)));
        S6aPurMessage::new_pua(session_id, RESULT_CODE_SUCCESS, flags)
    }
}

/// Whether the string holds the same characters as `b`.
fn str_is(a: &String, b: &str) -> (r: bool)
    ensures
        r == (a@ == b@),
{
    crate::text::str_eq(a.as_str(), b)
}

} // verus!
