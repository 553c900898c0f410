//! Emergency-call exemptions for the EIR: blacklisted or unknown equipment is blocked for
//! ordinary access but always admitted, on an emergency APN, for emergency calls.
use vstd::prelude::*;
use vstd::string::*;
use vstd::utf8::encode_utf8;
use crate::text::{str_eq, bytes_all_digits};
use crate::diameter_s13_escn::{S13EquipmentStatus, imei_valid, db_view, db_pos, status_in, db_find, lookup, lemma_db_pos};

verus! {

#[derive(Debug, Clone, Copy, PartialEq, Eq, Structural)]
pub enum EmergencyCallType {
    Voice112_911,
    ECallManual,
    ECallAutomaticCrash,
    TestEmergency,
}

#[derive(Debug, Clone, PartialEq, Eq)]
pub struct EmergencySessionRecord {
    pub session_id: u32,
    pub imei: String,
    pub call_type: EmergencyCallType,
    pub apn: String,
    pub granted_at_secs: u64,
    pub max_duration_secs: u64,
    pub is_active: bool,
}

#[derive(Debug, Clone, PartialEq, Eq)]
pub enum EmergencyExemptionVerdict {
    StandardAccessAllowed { imei: String, status: S13EquipmentStatus },
    EmergencyExemptionGranted {
        imei: String,
        original_status: S13EquipmentStatus,
        call_type: EmergencyCallType,
        session_id: u32,
        permitted_apn: String,
    },
    NonEmergencyBlocked { imei: String, status: S13EquipmentStatus, reason: &'static str },
    MalformedImeiRejected { input: String },
}

/// A session as (id, IMEI, call type, APN, start, duration, active).
pub open spec fn session_view(s: EmergencySessionRecord) -> (u32, Seq<char>, EmergencyCallType, Seq<char>, u64, u64, bool) {
    (s.session_id, s.imei@, s.call_type, s.apn@, s.granted_at_secs, s.max_duration_secs, s.is_active)
}

pub open spec fn sessions_view(v: Seq<EmergencySessionRecord>) -> Seq<(u32, Seq<char>, EmergencyCallType, Seq<char>, u64, u64, bool)> {
    v.map_values(|s: EmergencySessionRecord| session_view(s))
}

/// The APN granted for an emergency: "sos" in place of an empty or "internet" request.
pub open spec fn emergency_apn(requested: Seq<char>) -> Seq<char> {
    if requested.len() == 0 || requested == "internet"@ {
        "sos"@
    } else {
        requested
    }
}

/// A session after a sweep at `now`: active ones past their end become inactive.
pub open spec fn swept(s: (u32, Seq<char>, EmergencyCallType, Seq<char>, u64, u64, bool), now: u64) -> (u32, Seq<char>, EmergencyCallType, Seq<char>, u64, u64, bool) {
    if s.6 && now >= s.4 + s.5 {
        (s.0, s.1, s.2, s.3, s.4, s.5, false)
    } else {
        s
    }
}

/// How many of the sessions a sweep at `now` ends.
pub open spec fn sweep_count(v: Seq<(u32, Seq<char>, EmergencyCallType, Seq<char>, u64, u64, bool)>, now: u64) -> nat
    decreases v.len(),
{
    if v.len() == 0 {
        0
    } else {
        sweep_count(v.drop_last(), now) + if v.last().6 && now >= v.last().4 + v.last().5 { 1nat } else { 0nat }
    }
}

/// Whether every active session's end fits in 64 bits.
pub open spec fn sessions_fit(v: Seq<EmergencySessionRecord>) -> bool {
    forall|i: int| 0 <= i < v.len() ==> ((#[trigger] v[i]).is_active ==> v[i].granted_at_secs + v[i].max_duration_secs <= u64::MAX)
}

/// The first session with `id`.
pub open spec fn session_pos(v: Seq<EmergencySessionRecord>, id: u32) -> Option<int>
    decreases v.len(),
{
    if v.len() == 0 {
        None
    } else if v[0].session_id == id {
        Some(0)
    } else {
        match session_pos(v.skip(1), id) {
            Some(i) => Some(i + 1),
            None => None,
        }
    }
}

proof fn lemma_session_pos(v: Seq<EmergencySessionRecord>, id: u32)
    ensures
        match session_pos(v, id) {
            Some(i) => 0 <= i < v.len() && v[i].session_id == id && forall|j: int| 0 <= j < i ==> (#[trigger] v[j]).session_id != id,
            None => forall|j: int| 0 <= j < v.len() ==> (#[trigger] v[j]).session_id != id,
        },
    decreases v.len(),
{
    if v.len() > 0 {
        lemma_session_pos(v.skip(1), id);
        assert forall|j: int| 1 <= j < v.len() implies v[j] == v.skip(1)[j - 1] by {}
    }
}

pub struct DiameterS13EmergencyExemptionEngine {
    pub default_emergency_duration_secs: u64,
    pub equipment_db: Vec<(String, S13EquipmentStatus)>,
    pub sessions: Vec<EmergencySessionRecord>,
    pub next_session_id: u32,
    pub total_exemptions_granted: u64,
    pub total_blocked_calls: u64,
    pub total_standard_calls: u64,
}

impl DiameterS13EmergencyExemptionEngine {
    pub fn new(default_emergency_duration_secs: u64) -> (r: Self)
        ensures
            r.default_emergency_duration_secs == default_emergency_duration_secs,
            r.equipment_db@.len() == 0,
            r.sessions@.len() == 0,
            r.next_session_id == 1,
            r.total_exemptions_granted == 0,
            r.total_blocked_calls == 0,
            r.total_standard_calls == 0,
    {
        Self {
            default_emergency_duration_secs,
            equipment_db: Vec::new(),
            sessions: Vec::new(),
            next_session_id: 1,
            total_exemptions_granted: 0,
            total_blocked_calls: 0,
            total_standard_calls: 0,
        }
    }

    /// Sets the status of the first entry for `imei`, or adds an entry.
    pub fn set_equipment_status(&mut self, imei: &str, status: S13EquipmentStatus)
        ensures
            db_view(final(self).equipment_db@) == match db_pos(db_view(old(self).equipment_db@), imei@) {
                Some(k) => db_view(old(self).equipment_db@).update(k, (imei@, status)),
                None => db_view(old(self).equipment_db@).push((imei@, status)),
            },
            final(self).sessions == old(self).sessions,
            final(self).next_session_id == old(self).next_session_id,
            final(self).total_exemptions_granted == old(self).total_exemptions_granted,
            final(self).total_blocked_calls == old(self).total_blocked_calls,
            final(self).total_standard_calls == old(self).total_standard_calls,
    {
        let ghost db = db_view(self.equipment_db@);
        proof {
            lemma_db_pos(db, imei@);
        }
        match db_find(&self.equipment_db, imei) {
            Some(k) => {
                let key = self.equipment_db[k].0.clone();
                self.equipment_db.set(k, (key, status));
                assert(db_view(self.equipment_db@) =~= db.update(k as int, (imei@, status)));
            },
            None => {
                self.equipment_db.push((imei.to_owned(), status));
                assert(db_view(self.equipment_db@) =~= db.push((imei@, status)));
            },
        }
    }

    /// Decides an access request. A malformed IMEI (not 14 to 16 digits) is rejected. An
    /// emergency request always opens a session (default type voice, APN per
    /// `emergency_apn`) whatever the equipment's status. Otherwise white- and greylisted
    /// equipment is allowed and black-listed or unknown equipment is blocked.
    pub fn evaluate_access(
        &mut self,
        imei: &str,
        is_emergency_request: bool,
        call_type: Option<EmergencyCallType>,
        requested_apn: &str,
        current_time_secs: u64,
    ) -> (r: EmergencyExemptionVerdict)
        requires
            old(self).next_session_id < u32::MAX,
            old(self).total_exemptions_granted < u64::MAX,
            old(self).total_blocked_calls < u64::MAX,
            old(self).total_standard_calls < u64::MAX,
        ensures
            final(self).equipment_db == old(self).equipment_db,
            final(self).default_emergency_duration_secs == old(self).default_emergency_duration_secs,
            ({
                let status = status_in(db_view(old(self).equipment_db@), imei@);
                if !imei_valid(imei@) {
                    &&& r matches EmergencyExemptionVerdict::MalformedImeiRejected { input } && input@ == imei@
                    &&& final(self).sessions == old(self).sessions
                    &&& final(self).next_session_id == old(self).next_session_id
                    &&& final(self).total_exemptions_granted == old(self).total_exemptions_granted
                    &&& final(self).total_blocked_calls == old(self).total_blocked_calls
                    &&& final(self).total_standard_calls == old(self).total_standard_calls
                } else if is_emergency_request {
                    let ty = match call_type { Some(t) => t, None => EmergencyCallType::Voice112_911 };
                    let apn = emergency_apn(requested_apn@);
                    &&& r matches EmergencyExemptionVerdict::EmergencyExemptionGranted { imei: i, original_status, call_type: c, session_id, permitted_apn }
                        && i@ == imei@ && original_status == status && c == ty && session_id == old(self).next_session_id && permitted_apn@ == apn
                    &&& sessions_view(final(self).sessions@) == sessions_view(old(self).sessions@).push(
                        (old(self).next_session_id, imei@, ty, apn, current_time_secs, old(self).default_emergency_duration_secs, true),
                    )
                    &&& final(self).next_session_id == old(self).next_session_id + 1
                    &&& final(self).total_exemptions_granted == old(self).total_exemptions_granted + 1
                    &&& final(self).total_blocked_calls == old(self).total_blocked_calls
                    &&& final(self).total_standard_calls == old(self).total_standard_calls
                } else {
                    let allowed = status == S13EquipmentStatus::WhiteListed || status == S13EquipmentStatus::GrayListed;
                    &&& final(self).sessions == old(self).sessions
                    &&& final(self).next_session_id == old(self).next_session_id
                    &&& final(self).total_exemptions_granted == old(self).total_exemptions_granted
                    &&& if allowed {
                        &&& r matches EmergencyExemptionVerdict::StandardAccessAllowed { imei: i, status: s } && i@ == imei@ && s == status
                        &&& final(self).total_standard_calls == old(self).total_standard_calls + 1
                        &&& final(self).total_blocked_calls == old(self).total_blocked_calls
                    } else {
                        &&& r matches EmergencyExemptionVerdict::NonEmergencyBlocked { imei: i, status: s, reason } && i@ == imei@ && s == status
                            && reason@ == if status == S13EquipmentStatus::BlackListed {
                                "Equipment is blacklisted (stolen/fraudulent) and request is non-emergency."@
                            } else {
                                "Equipment status is unknown or unverified."@
                            }
                        &&& final(self).total_blocked_calls == old(self).total_blocked_calls + 1
                        &&& final(self).total_standard_calls == old(self).total_standard_calls
                    }
                }
            }),
    {
        let b = imei.as_bytes();
        if b.len() < 14 || b.len() > 16 || !bytes_all_digits(b) {
            return EmergencyExemptionVerdict::MalformedImeiRejected { input: imei.to_owned() };
        }
        let status = lookup(&self.equipment_db, imei);
        if is_emergency_request {
            let emergency_type = match call_type {
                Some(t) => t,
                None => EmergencyCallType::Voice112_911,
            };
            let session_id = self.next_session_id;
            self.next_session_id = self.next_session_id + 1;
            let apn = if requested_apn.is_empty() || str_eq(requested_apn, "internet") {
                "sos".to_owned()
            } else {
                requested_apn.to_owned()
            };
            let ghost s0 = sessions_view(self.sessions@);
            self.sessions.push(EmergencySessionRecord {
                session_id,
                imei: imei.to_owned(),
                call_type: emergency_type,
                apn: apn.clone(),
                granted_at_secs: current_time_secs,
                max_duration_secs: self.default_emergency_duration_secs,
                is_active: true,
            });
            assert(sessions_view(self.sessions@) =~= s0.push(
                (session_id, imei@, emergency_type, apn@, current_time_secs, self.default_emergency_duration_secs, true),
            ));
            self.total_exemptions_granted = self.total_exemptions_granted + 1;
            EmergencyExemptionVerdict::EmergencyExemptionGranted {
                imei: imei.to_owned(),
                original_status: status,
                call_type: emergency_type,
                session_id,
                permitted_apn: apn,
            }
        } else {
            match status {
                S13EquipmentStatus::WhiteListed => {
                    self.total_standard_calls = self.total_standard_calls + 1;
                    EmergencyExemptionVerdict::StandardAccessAllowed { imei: imei.to_owned(), status }
                },
                S13EquipmentStatus::BlackListed => {
                    self.total_blocked_calls = self.total_blocked_calls + 1;
                    EmergencyExemptionVerdict::NonEmergencyBlocked {
                        imei: imei.to_owned(),
                        status,
                        reason: "Equipment is blacklisted (stolen/fraudulent) and request is non-emergency.",
                    }
                },
                S13EquipmentStatus::GrayListed => {
                    self.total_standard_calls = self.total_standard_calls + 1;
                    EmergencyExemptionVerdict::StandardAccessAllowed { imei: imei.to_owned(), status }
                },
                S13EquipmentStatus::Unknown => {
                    self.total_blocked_calls = self.total_blocked_calls + 1;
                    EmergencyExemptionVerdict::NonEmergencyBlocked {
                        imei: imei.to_owned(),
                        status,
                        reason: "Equipment status is unknown or unverified.",
                    }
                },
            }
        }
    }

    /// Marks the first session with `session_id` inactive; tells whether there was one.
    pub fn terminate_session(&mut self, session_id: u32) -> (r: bool)
        ensures
            final(self).equipment_db == old(self).equipment_db,
            final(self).next_session_id == old(self).next_session_id,
            match session_pos(old(self).sessions@, session_id) {
                Some(k) => r && final(self).sessions@ == old(self).sessions@.update(k, EmergencySessionRecord { is_active: false, ..old(self).sessions@[k] }),
                None => !r && final(self).sessions@ == old(self).sessions@,
            },
    {
        proof {
            lemma_session_pos(self.sessions@, session_id);
        }
        let mut i: usize = 0;
        while i < self.sessions.len()
            invariant
                i <= self.sessions@.len(),
                self.sessions == old(self).sessions,
                self.equipment_db == old(self).equipment_db,
                self.next_session_id == old(self).next_session_id,
                forall|j: int| 0 <= j < i ==> (#[trigger] self.sessions@[j]).session_id != session_id,
                match session_pos(self.sessions@, session_id) {
                    Some(k) => 0 <= k < self.sessions@.len() && self.sessions@[k].session_id == session_id
                        && forall|j: int| 0 <= j < k ==> (#[trigger] self.sessions@[j]).session_id != session_id,
                    None => forall|j: int| 0 <= j < self.sessions@.len() ==> (#[trigger] self.sessions@[j]).session_id != session_id,
                },
            decreases self.sessions@.len() - i,
        {
            if self.sessions[i].session_id == session_id {
                proof {
                    let k = session_pos(self.sessions@, session_id);
                    if k is None {
                    } else if k.unwrap() > i {
                    }
                }
                let mut s = self.sessions.remove(i);
                s.is_active = false;
                self.sessions.insert(i, s);
                assert(self.sessions@ =~= old(self).sessions@.update(i as int, EmergencySessionRecord { is_active: false, ..old(self).sessions@[i as int] }));
                return true;
            }
            i = i + 1;
        }
        false
    }

    /// Ends every active session whose time is up at `current_time_secs`; returns how many.
    pub fn sweep_expired(&mut self, current_time_secs: u64) -> (r: usize)
        requires
            sessions_fit(old(self).sessions@),
        ensures
            sessions_view(final(self).sessions@) == sessions_view(old(self).sessions@).map_values(
                |s: (u32, Seq<char>, EmergencyCallType, Seq<char>, u64, u64, bool)| swept(s, current_time_secs),
            ),
            r == sweep_count(sessions_view(old(self).sessions@), current_time_secs),
            final(self).equipment_db == old(self).equipment_db,
            final(self).next_session_id == old(self).next_session_id,
    {
        let ghost s0 = sessions_view(self.sessions@);
        let mut count: usize = 0;
        let mut i: usize = 0;
        while i < self.sessions.len()
            invariant
                i <= self.sessions@.len(),
                self.sessions@.len() == s0.len(),
                s0 == sessions_view(old(self).sessions@),
                sessions_fit(old(self).sessions@),
                self.equipment_db == old(self).equipment_db,
                self.next_session_id == old(self).next_session_id,
                count == sweep_count(s0.subrange(0, i as int), current_time_secs),
                count <= i,
                forall|j: int| 0 <= j < i ==> #[trigger] sessions_view(self.sessions@)[j] == swept(s0[j], current_time_secs),
                forall|j: int| i <= j < s0.len() ==> #[trigger] self.sessions@[j] == old(self).sessions@[j],
            decreases self.sessions@.len() - i,
        {
            let ghost before = sessions_view(self.sessions@);
            assert(self.sessions@[i as int] == old(self).sessions@[i as int]);
            assert(s0[i as int] == session_view(old(self).sessions@[i as int]));
            assert(old(self).sessions@[i as int].is_active ==> old(self).sessions@[i as int].granted_at_secs + old(self).sessions@[i as int].max_duration_secs <= u64::MAX);
            assert(s0.subrange(0, i + 1).drop_last() =~= s0.subrange(0, i as int));
            if self.sessions[i].is_active && current_time_secs >= self.sessions[i].granted_at_secs + self.sessions[i].max_duration_secs {
                let mut s = self.sessions.remove(i);
                s.is_active = false;
                self.sessions.insert(i, s);
                count = count + 1;
                assert(sessions_view(self.sessions@) =~= before.update(i as int, swept(s0[i as int], current_time_secs)));
            }
            assert forall|j: int| 0 <= j < i + 1 implies #[trigger] sessions_view(self.sessions@)[j] == swept(s0[j], current_time_secs) by {
                if j < i {
                    assert(before[j] == swept(s0[j], current_time_secs));
                }
            }
            i = i + 1;
        }
        assert(s0.subrange(0, i as int) =~= s0);
        assert(sessions_view(self.sessions@) =~= s0.map_values(
            |s: (u32, Seq<char>, EmergencyCallType, Seq<char>, u64, u64, bool)| swept(s, current_time_secs),
        ));
        count
    }

    /// Clears the database and sessions and restarts numbering and counters.
    pub fn reset(&mut self)
        ensures
            final(self).equipment_db@.len() == 0,
            final(self).sessions@.len() == 0,
            final(self).next_session_id == 1,
            final(self).total_exemptions_granted == 0,
            final(self).total_blocked_calls == 0,
            final(self).total_standard_calls == 0,
            final(self).default_emergency_duration_secs == old(self).default_emergency_duration_secs,
    {
        self.equipment_db.clear();
        self.sessions.clear();
        self.next_session_id = 1;
        self.total_exemptions_granted = 0;
        self.total_blocked_calls = 0;
        self.total_standard_calls = 0;
    }
}

} // verus!
