//! S6a/S6d Reset-Request / Answer (RSR / RSA, command 322): after an HSS restart the serving
//! node marks the named subscribers, or all of them, for resynchronisation.
use vstd::prelude::*;
use crate::text::str_eq;

verus! {

pub const DIAMETER_APPLICATION_S6A: u32 = 16_777_251;
pub const DIAMETER_CMD_RESET: u32 = 322;
pub const RESULT_CODE_SUCCESS: u32 = 2001;
pub const RESULT_CODE_UNABLE_TO_DELIVER: u32 = 3002;

#[derive(Debug, Clone, PartialEq, Eq)]
pub enum S6aRsrAvp {
    SessionId(String),
    OriginHost(String),
    OriginRealm(String),
    DestinationHost(String),
    DestinationRealm(String),
    UserId(String),
    ResultCode(u32),
}

#[derive(Debug, Clone)]
pub struct S6aRsrMessage {
    pub command_code: u32,
    pub application_id: u32,
    pub is_request: bool,
    pub session_id: String,
    pub avps: Vec<S6aRsrAvp>,
}

/// The User-Id values of `avps`, in order.
pub open spec fn user_ids_of(avps: Seq<S6aRsrAvp>) -> Seq<Seq<char>>
    decreases avps.len(),
{
    if avps.len() == 0 {
        Seq::empty()
    } else {
        let rest = user_ids_of(avps.drop_last());
        if let S6aRsrAvp::UserId(s) = avps.last() {
            rest.push(s@)
        } else {
            rest
        }
    }
}

/// The first Result-Code of `avps`.
pub open spec fn first_result_code(avps: Seq<S6aRsrAvp>) -> Option<u32>
    decreases avps.len(),
{
    if avps.len() == 0 {
        None
    } else if let S6aRsrAvp::ResultCode(c) = avps[0] {
        Some(c)
    } else {
        first_result_code(avps.skip(1))
    }
}

/// The characters of each string.
pub open spec fn strs_view(v: Seq<&str>) -> Seq<Seq<char>> {
    v.map_values(|s: &str| s@)
}

impl S6aRsrMessage {
    /// A Reset-Request: Session-Id, Origin-Host/Realm, Destination-Host/Realm, then one User-Id
    /// per affected IMSI.
    pub fn new_rsr(
        session_id: &str,
        origin_host: &str,
        origin_realm: &str,
        dest_host: &str,
        dest_realm: &str,
        affected_imsis: &[&str],
    ) -> (r: Self)
        ensures
            r.command_code == DIAMETER_CMD_RESET,
            r.application_id == DIAMETER_APPLICATION_S6A,
            r.is_request,
            r.session_id@ == session_id@,
            r.avps@.len() == 5 + affected_imsis@.len(),
            r.avps@[0] matches S6aRsrAvp::SessionId(s) && s@ == session_id@,
            r.avps@[1] matches S6aRsrAvp::OriginHost(s) && s@ == origin_host@,
            r.avps@[2] matches S6aRsrAvp::OriginRealm(s) && s@ == origin_realm@,
            r.avps@[3] matches S6aRsrAvp::DestinationHost(s) && s@ == dest_host@,
            r.avps@[4] matches S6aRsrAvp::DestinationRealm(s) && s@ == dest_realm@,
            forall|i: int| 0 <= i < affected_imsis@.len() ==> (#[trigger] r.avps@[5 + i] matches S6aRsrAvp::UserId(s) && s@ == affected_imsis@[i]@),
            user_ids_of(r.avps@) == strs_view(affected_imsis@),
    {
        let mut avps = vec![
            S6aRsrAvp::SessionId(session_id.to_owned()),
            S6aRsrAvp::OriginHost(origin_host.to_owned()),
            S6aRsrAvp::OriginRealm(origin_realm.to_owned()),
            S6aRsrAvp::DestinationHost(dest_host.to_owned()),
            S6aRsrAvp::DestinationRealm(dest_realm.to_owned()),
        ];
        proof {
            reveal_with_fuel(user_ids_of, 6);
            assert(avps@.drop_last().drop_last().drop_last().drop_last().drop_last() =~= Seq::<S6aRsrAvp>::empty());
            assert(user_ids_of(avps@) =~= Seq::<Seq<char>>::empty());
        }
        let mut i: usize = 0;
        while i < affected_imsis.len()
            invariant
                i <= affected_imsis@.len(),
                avps@.len() == 5 + i,
                avps@[0] matches S6aRsrAvp::SessionId(s) && s@ == session_id@,
                avps@[1] matches S6aRsrAvp::OriginHost(s) && s@ == origin_host@,
                avps@[2] matches S6aRsrAvp::OriginRealm(s) && s@ == origin_realm@,
                avps@[3] matches S6aRsrAvp::DestinationHost(s) && s@ == dest_host@,
                avps@[4] matches S6aRsrAvp::DestinationRealm(s) && s@ == dest_realm@,
                forall|j: int| 0 <= j < i ==> (#[trigger] avps@[5 + j] matches S6aRsrAvp::UserId(s) && s@ == affected_imsis@[j]@),
                user_ids_of(avps@) == strs_view(affected_imsis@.subrange(0, i as int)),
            decreases affected_imsis@.len() - i,
        {
            let ghost a0 = avps@;
            avps.push(S6aRsrAvp::UserId(affected_imsis[i].to_owned()));
            assert(avps@.drop_last() =~= a0);
            assert(strs_view(affected_imsis@.subrange(0, i + 1)) =~= strs_view(affected_imsis@.subrange(0, i as int)).push(affected_imsis@[i as int]@));
            i = i + 1;
        }
        assert(affected_imsis@.subrange(0, i as int) =~= affected_imsis@);
        Self {
            command_code: DIAMETER_CMD_RESET,
            application_id: DIAMETER_APPLICATION_S6A,
            is_request: true,
            session_id: session_id.to_owned(),
            avps,
        }
    }

    /// A Reset-Answer: Session-Id, Origin-Host, Origin-Realm and Result-Code.
    pub fn new_rsa(session_id: &str, origin_host: &str, origin_realm: &str, result_code: u32) -> (r: Self)
        ensures
            r.command_code == DIAMETER_CMD_RESET,
            r.application_id == DIAMETER_APPLICATION_S6A,
            !r.is_request,
            r.session_id@ == session_id@,
            r.avps@.len() == 4,
            r.avps@[0] matches S6aRsrAvp::SessionId(s) && s@ == session_id@,
            r.avps@[1] matches S6aRsrAvp::OriginHost(s) && s@ == origin_host@,
            r.avps@[2] matches S6aRsrAvp::OriginRealm(s) && s@ == origin_realm@,
            r.avps@[3] == S6aRsrAvp::ResultCode(result_code),
            first_result_code(r.avps@) == Some(result_code),
    {
        let r = Self {
            command_code: DIAMETER_CMD_RESET,
            application_id: DIAMETER_APPLICATION_S6A,
            is_request: false,
            session_id: session_id.to_owned(),
            avps: vec![
                S6aRsrAvp::SessionId(session_id.to_owned()),
                S6aRsrAvp::OriginHost(origin_host.to_owned()),
                S6aRsrAvp::OriginRealm(origin_realm.to_owned()),
                S6aRsrAvp::ResultCode(result_code),
            ],
        };
        proof {
            reveal_with_fuel(first_result_code, 5);
        }
        r
    }

    /// All User-Id values, in order.
    pub fn user_ids(&self) -> (r: Vec<&str>)
        ensures
            strs_view(r@) == user_ids_of(self.avps@),
    {
        let mut out: Vec<&str> = Vec::new();
        let mut i: usize = 0;
        while i < self.avps.len()
            invariant
                i <= self.avps@.len(),
                strs_view(out@) == user_ids_of(self.avps@.subrange(0, i as int)),
            decreases self.avps@.len() - i,
        {
            let ghost o0 = out@;
            assert(self.avps@.subrange(0, i + 1).drop_last() =~= self.avps@.subrange(0, i as int));
            if let S6aRsrAvp::UserId(s) = &self.avps[i] {
                out.push(s.as_str());
                assert(strs_view(out@) =~= strs_view(o0).push(s@));
            }
            i = i + 1;
        }
        assert(self.avps@.subrange(0, i as int) =~= self.avps@);
        out
    }

    /// The first Result-Code.
    pub fn result_code(&self) -> (r: Option<u32>)
        ensures
            r == first_result_code(self.avps@),
    {
        let mut i: usize = 0;
        assert(self.avps@.skip(0) =~= self.avps@);
        while i < self.avps.len()
            invariant
                i <= self.avps@.len(),
                first_result_code(self.avps@) == first_result_code(self.avps@.skip(i as int)),
            decreases self.avps@.len() - i,
        {
            assert(self.avps@.skip(i as int)[0] == self.avps@[i as int]);
            assert(self.avps@.skip(i as int).skip(1) =~= self.avps@.skip(i + 1));
            if let S6aRsrAvp::ResultCode(c) = &self.avps[i] {
                return Some(*c);
            }
            i = i + 1;
        }
        None
    }
}

#[derive(Debug, Clone)]
pub struct ServingSubscriberState {
    pub imsi: String,
    pub needs_resync: bool,
    pub marked_at_ns: u64,
}

/// The model of a subscriber record: IMSI, resync flag, marking time.
pub open spec fn sub_view(s: ServingSubscriberState) -> (Seq<char>, bool, u64) {
    (s.imsi@, s.needs_resync, s.marked_at_ns)
}

pub open spec fn subs_view(v: Seq<ServingSubscriberState>) -> Seq<(Seq<char>, bool, u64)> {
    v.map_values(|s: ServingSubscriberState| sub_view(s))
}

/// Whether a reset naming `targets` applies to `imsi`: an empty list names every subscriber.
pub open spec fn reset_applies(targets: Seq<Seq<char>>, imsi: Seq<char>) -> bool {
    targets.len() == 0 || targets.contains(imsi)
}

/// A subscriber after a reset naming `targets` at time `now`.
pub open spec fn after_reset(s: (Seq<char>, bool, u64), targets: Seq<Seq<char>>, now: u64) -> (Seq<char>, bool, u64) {
    if reset_applies(targets, s.0) {
        (s.0, true, now)
    } else {
        s
    }
}

/// How many of `subs` a reset naming `targets` applies to.
pub open spec fn reset_count(subs: Seq<(Seq<char>, bool, u64)>, targets: Seq<Seq<char>>) -> nat
    decreases subs.len(),
{
    if subs.len() == 0 {
        0
    } else {
        reset_count(subs.drop_last(), targets) + if reset_applies(targets, subs.last().0) { 1nat } else { 0nat }
    }
}

/// The first record for `imsi`, if any.
pub open spec fn first_sub(subs: Seq<(Seq<char>, bool, u64)>, imsi: Seq<char>) -> Option<int>
    decreases subs.len(),
{
    if subs.len() == 0 {
        None
    } else if subs[0].0 == imsi {
        Some(0)
    } else {
        match first_sub(subs.skip(1), imsi) {
            Some(i) => Some(i + 1),
            None => None,
        }
    }
}

proof fn lemma_first_sub(subs: Seq<(Seq<char>, bool, u64)>, imsi: Seq<char>)
    ensures
        match first_sub(subs, imsi) {
            Some(i) => 0 <= i < subs.len() && subs[i].0 == imsi && forall|j: int| 0 <= j < i ==> subs[j].0 != imsi,
            None => forall|j: int| 0 <= j < subs.len() ==> subs[j].0 != imsi,
        },
    decreases subs.len(),
{
    if subs.len() > 0 {
        lemma_first_sub(subs.skip(1), imsi);
        assert forall|j: int| 1 <= j < subs.len() implies subs[j] == subs.skip(1)[j - 1] by {}
    }
}

pub struct S6aRsrEngine {
    pub node_id: String,
    pub realm: String,
    pub subscribers: Vec<ServingSubscriberState>,
    pub total_rsr_received: u64,
    pub total_subscribers_reset: u64,
    pub clock_ns: u64,
}

impl S6aRsrEngine {
    pub fn new(node_id: &str, realm: &str) -> (r: Self)
        ensures
            r.node_id@ == node_id@,
            r.realm@ == realm@,
            r.subscribers@.len() == 0,
            r.total_rsr_received == 0,
            r.total_subscribers_reset == 0,
            r.clock_ns == 0,
    {
        Self {
            node_id: node_id.to_owned(),
            realm: realm.to_owned(),
            subscribers: Vec::new(),
            total_rsr_received: 0,
            total_subscribers_reset: 0,
            clock_ns: 0,
        }
    }

    /// Adds `imsi`, not marked, unless it is already there.
    pub fn provision_subscriber(&mut self, imsi: &str)
        ensures
            subs_view(final(self).subscribers@) == if first_sub(subs_view(old(self).subscribers@), imsi@) is Some {
                subs_view(old(self).subscribers@)
            } else {
                subs_view(old(self).subscribers@).push((imsi@, false, 0u64))
            },
            final(self).node_id == old(self).node_id,
            final(self).realm == old(self).realm,
            final(self).total_rsr_received == old(self).total_rsr_received,
            final(self).total_subscribers_reset == old(self).total_subscribers_reset,
            final(self).clock_ns == old(self).clock_ns,
    {
        if self.find(imsi).is_none() {
            let ghost s0 = subs_view(self.subscribers@);
            self.subscribers.push(ServingSubscriberState { imsi: imsi.to_owned(), needs_resync: false, marked_at_ns: 0 });
            assert(subs_view(self.subscribers@) =~= s0.push((imsi@, false, 0u64)));
        }
    }

    fn find(&self, imsi: &str) -> (r: Option<usize>)
        ensures
            match r {
                Some(i) => first_sub(subs_view(self.subscribers@), imsi@) == Some(i as int) && i < self.subscribers@.len(),
                None => first_sub(subs_view(self.subscribers@), imsi@) is None,
            },
    {
        let ghost sv = subs_view(self.subscribers@);
        proof {
            lemma_first_sub(sv, imsi@);
        }
        let mut i: usize = 0;
        while i < self.subscribers.len()
            invariant
                i <= self.subscribers@.len(),
                sv == subs_view(self.subscribers@),
                forall|j: int| 0 <= j < i ==> #[trigger] sv[j].0 != imsi@,
                match first_sub(sv, imsi@) {
                    Some(k) => 0 <= k < sv.len() && sv[k].0 == imsi@ && forall|j: int| 0 <= j < k ==> sv[j].0 != imsi@,
                    None => forall|j: int| 0 <= j < sv.len() ==> sv[j].0 != imsi@,
                },
            decreases self.subscribers@.len() - i,
        {
            assert(sv[i as int].0 == self.subscribers@[i as int].imsi@);
            if str_eq(self.subscribers[i].imsi.as_str(), imsi) {
                proof {
                    let k = first_sub(sv, imsi@);
                    if k is None {
                        assert(sv[i as int].0 != imsi@);
                    } else if k.unwrap() > i {
                        assert(sv[i as int].0 != imsi@);
                    }
                }
                return Some(i);
            }
            i = i + 1;
        }
        proof {
            if first_sub(sv, imsi@) is Some {
                let k = first_sub(sv, imsi@).unwrap();
                assert(sv[k].0 != imsi@);
            }
        }
        None
    }

    /// Advances the clock by `delta_ns`, saturating.
    pub fn advance_clock(&mut self, delta_ns: u64)
        ensures
            final(self).clock_ns == old(self).clock_ns.saturating_add(delta_ns),
            subs_view(final(self).subscribers@) == subs_view(old(self).subscribers@),
            final(self).total_rsr_received == old(self).total_rsr_received,
            final(self).total_subscribers_reset == old(self).total_subscribers_reset,
    {
        self.clock_ns = self.clock_ns.saturating_add(delta_ns);
    }

    /// Handles a Reset-Request: every subscriber it names (all of them when it names none) is
    /// marked for resync at the current clock; the counters grow; the answer carries 2001.
    pub fn process_rsr(&mut self, rsr: &S6aRsrMessage) -> (r: S6aRsrMessage)
        requires
            old(self).total_rsr_received < u64::MAX,
            old(self).total_subscribers_reset + old(self).subscribers@.len() <= u64::MAX,
        ensures
            subs_view(final(self).subscribers@) == subs_view(old(self).subscribers@).map_values(
                |s: (Seq<char>, bool, u64)| after_reset(s, user_ids_of(rsr.avps@), old(self).clock_ns),
            ),
            final(self).total_rsr_received == old(self).total_rsr_received + 1,
            final(self).total_subscribers_reset == old(self).total_subscribers_reset
                + reset_count(subs_view(old(self).subscribers@), user_ids_of(rsr.avps@)),
            final(self).clock_ns == old(self).clock_ns,
            final(self).node_id == old(self).node_id,
            final(self).realm == old(self).realm,
            !r.is_request,
            r.command_code == DIAMETER_CMD_RESET,
            r.application_id == DIAMETER_APPLICATION_S6A,
            r.session_id@ == rsr.session_id@,
            r.avps@.len() == 4,
            r.avps@[0] matches S6aRsrAvp::SessionId(s) && s@ == rsr.session_id@,
            r.avps@[1] matches S6aRsrAvp::OriginHost(s) && s@ == old(self).node_id@,
            r.avps@[2] matches S6aRsrAvp::OriginRealm(s) && s@ == old(self).realm@,
            first_result_code(r.avps@) == Some(RESULT_CODE_SUCCESS),
    {
        self.total_rsr_received = self.total_rsr_received + 1;
        let targeted = rsr.user_ids();
        let ghost t = user_ids_of(rsr.avps@);
        let ghost s0 = subs_view(self.subscribers@);
        let now = self.clock_ns;
        let mut reset: u64 = 0;
        let mut i: usize = 0;
        while i < self.subscribers.len()
            invariant
                i <= self.subscribers@.len(),
                self.subscribers@.len() == s0.len(),
                strs_view(targeted@) == t,
                now == self.clock_ns,
                reset == reset_count(s0.subrange(0, i as int), t),
                reset <= i,
                self.total_subscribers_reset + s0.len() <= u64::MAX,
                self.total_subscribers_reset == old(self).total_subscribers_reset,
                self.total_rsr_received == old(self).total_rsr_received + 1,
                self.node_id == old(self).node_id,
                self.realm == old(self).realm,
                s0 == subs_view(old(self).subscribers@),
                forall|j: int| 0 <= j < i ==> #[trigger] subs_view(self.subscribers@)[j] == after_reset(s0[j], t, now),
                forall|j: int| i <= j < s0.len() ==> #[trigger] subs_view(self.subscribers@)[j] == s0[j],
            decreases self.subscribers@.len() - i,
        {
            let ghost before = subs_view(self.subscribers@);
            assert(before[i as int] == s0[i as int]);
            assert(before[i as int].0 == self.subscribers@[i as int].imsi@);
            assert(s0.subrange(0, i + 1).drop_last() =~= s0.subrange(0, i as int));
            let applies = targeted.len() == 0 || contains_str(&targeted, self.subscribers[i].imsi.as_str());
            if applies {
                let k = self.subscribers[i].imsi.clone();
                self.subscribers.set(i, ServingSubscriberState { imsi: k, needs_resync: true, marked_at_ns: now });
                reset = reset + 1;
                assert(subs_view(self.subscribers@) =~= before.update(i as int, (s0[i as int].0, true, now)));
            } else {
                assert(subs_view(self.subscribers@) =~= before);
            }
            assert forall|j: int| 0 <= j < i + 1 implies #[trigger] subs_view(self.subscribers@)[j] == after_reset(s0[j], t, now) by {
                if j < i {
                    assert(before[j] == after_reset(s0[j], t, now));
                }
            }
            i = i + 1;
        }
        assert(s0.subrange(0, i as int) =~= s0);
        assert(subs_view(self.subscribers@) =~= s0.map_values(|s: (Seq<char>, bool, u64)| after_reset(s, t, now)));
        self.total_subscribers_reset = self.total_subscribers_reset + reset;
        S6aRsrMessage::new_rsa(rsr.session_id.as_str(), self.node_id.as_str(), self.realm.as_str(), RESULT_CODE_SUCCESS)
    }

    /// The resync flag of the first record for `imsi`; false when there is none.
    pub fn needs_resync(&self, imsi: &str) -> (r: bool)
        ensures
            r == match first_sub(subs_view(self.subscribers@), imsi@) {
                Some(i) => subs_view(self.subscribers@)[i].1,
                None => false,
            },
    {
        proof {
            lemma_first_sub(subs_view(self.subscribers@), imsi@);
        }
        match self.find(imsi) {
            Some(i) => {
                assert(subs_view(self.subscribers@)[i as int] == sub_view(self.subscribers@[i as int]));
                self.subscribers[i].needs_resync
            },
            None => false,
        }
    }

    /// Clears the resync flag of the first record for `imsi`; false when there is none.
    pub fn clear_resync(&mut self, imsi: &str) -> (r: bool)
        ensures
            r == (first_sub(subs_view(old(self).subscribers@), imsi@) is Some),
            subs_view(final(self).subscribers@) == match first_sub(subs_view(old(self).subscribers@), imsi@) {
                Some(i) => subs_view(old(self).subscribers@).update(i, (imsi@, false, subs_view(old(self).subscribers@)[i].2)),
                None => subs_view(old(self).subscribers@),
            },
            final(self).total_rsr_received == old(self).total_rsr_received,
            final(self).total_subscribers_reset == old(self).total_subscribers_reset,
            final(self).clock_ns == old(self).clock_ns,
    {
        match self.find(imsi) {
            Some(i) => {
                let ghost s0 = subs_view(self.subscribers@);
                proof {
                    lemma_first_sub(s0, imsi@);
                }
                let k = self.subscribers[i].imsi.clone();
                let m = self.subscribers[i].marked_at_ns;
                self.subscribers.set(i, ServingSubscriberState { imsi: k, needs_resync: false, marked_at_ns: m });
                assert(subs_view(self.subscribers@) =~= s0.update(i as int, (imsi@, false, s0[i as int].2)));
                true
            },
            None => false,
        }
    }
}

/// Whether `v` holds a string equal to `s`.
fn contains_str(v: &Vec<&str>, s: &str) -> (r: bool)
    ensures
        r == strs_view(v@).contains(s@),
{
    let mut i: usize = 0;
    while i < v.len()
        invariant
            i <= v@.len(),
            forall|j: int| 0 <= j < i ==> #[trigger] strs_view(v@)[j] != s@,
        decreases v@.len() - i,
    {
        if str_eq(v[i], s) {
            assert(strs_view(v@)[i as int] == s@);
            return true;
        }
        i = i + 1;
    }
    false
}

} // verus!
