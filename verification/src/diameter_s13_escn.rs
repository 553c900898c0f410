//! S13 Equipment Status Change Notifications: the EIR pushes status changes to subscribed
//! MMEs, tracks their acknowledgements, and audits the MMEs' cached statuses.
use vstd::prelude::*;
use vstd::string::*;
use vstd::utf8::encode_utf8;
use crate::text::{trim, trimmed, str_eq, strings_view, bytes_all_digits, all_digits, concat};

verus! {

#[derive(Debug, Clone, Copy, PartialEq, Eq, Structural)]
pub enum S13EquipmentStatus {
    WhiteListed,
    GrayListed,
    BlackListed,
    Unknown,
}

/// The name of each status.
pub open spec fn status_name(s: S13EquipmentStatus) -> Seq<char> {
    match s {
        S13EquipmentStatus::WhiteListed => "WhiteListed"@,
        S13EquipmentStatus::GrayListed => "GrayListed"@,
        S13EquipmentStatus::BlackListed => "BlackListed"@,
        S13EquipmentStatus::Unknown => "Unknown"@,
    }
}

impl S13EquipmentStatus {
    pub fn as_str(&self) -> (r: &'static str)
        ensures
            r@ == status_name(*self),
    {
        match self {
            S13EquipmentStatus::WhiteListed => "WhiteListed",
            S13EquipmentStatus::GrayListed => "GrayListed",
            S13EquipmentStatus::BlackListed => "BlackListed",
            S13EquipmentStatus::Unknown => "Unknown",
        }
    }
}

#[derive(Debug, Clone, PartialEq, Eq)]
pub struct EscnNotification {
    pub imei: String,
    pub old_status: S13EquipmentStatus,
    pub new_status: S13EquipmentStatus,
    pub reason: String,
    pub timestamp_secs: u64,
    pub target_mme_realm: String,
    pub acknowledged: bool,
}

#[derive(Debug, Clone, PartialEq, Eq)]
pub enum EscnVerdict {
    StatusChangedNotificationsQueued {
        imei: String,
        old_status: S13EquipmentStatus,
        new_status: S13EquipmentStatus,
        notified_mme_count: usize,
    },
    StatusUnchangedIgnored { imei: String, status: S13EquipmentStatus },
    InvalidImeiRejected { input: String },
}

#[derive(Debug, Clone, PartialEq, Eq)]
pub struct AuditReconciliationResult {
    pub imei: String,
    pub edge_cached_status: S13EquipmentStatus,
    pub eir_authoritative_status: S13EquipmentStatus,
    pub synchronized: bool,
    pub action_taken: String,
}

/// Whether a trimmed IMEI is acceptable: 14 to 16 octets, all decimal digits.
pub open spec fn imei_valid(t: Seq<char>) -> bool {
    let b = encode_utf8(t);
    14 <= b.len() <= 16 && all_digits(b)
}

/// The status recorded for `imei` in the first matching entry, whitelisted when none.
pub open spec fn status_in(db: Seq<(Seq<char>, S13EquipmentStatus)>, imei: Seq<char>) -> S13EquipmentStatus
    decreases db.len(),
{
    if db.len() == 0 {
        S13EquipmentStatus::WhiteListed
    } else if db[0].0 == imei {
        db[0].1
    } else {
        status_in(db.skip(1), imei)
    }
}

/// The first position of `imei` in the database.
pub open spec fn db_pos(db: Seq<(Seq<char>, S13EquipmentStatus)>, imei: Seq<char>) -> Option<int>
    decreases db.len(),
{
    if db.len() == 0 {
        None
    } else if db[0].0 == imei {
        Some(0)
    } else {
        match db_pos(db.skip(1), imei) {
            Some(i) => Some(i + 1),
            None => None,
        }
    }
}

pub(crate) proof fn lemma_db_pos(db: Seq<(Seq<char>, S13EquipmentStatus)>, imei: Seq<char>)
    ensures
        match db_pos(db, imei) {
            Some(i) => 0 <= i < db.len() && db[i].0 == imei && status_in(db, imei) == db[i].1
                && forall|j: int| 0 <= j < i ==> db[j].0 != imei,
            None => status_in(db, imei) == S13EquipmentStatus::WhiteListed && forall|j: int| 0 <= j < db.len() ==> db[j].0 != imei,
        },
    decreases db.len(),
{
    if db.len() > 0 {
        lemma_db_pos(db.skip(1), imei);
        assert forall|j: int| 1 <= j < db.len() implies db[j] == db.skip(1)[j - 1] by {}
    }
}

/// A notification as (IMEI, old, new, reason, time, target, acknowledged).
pub open spec fn notif_view(n: EscnNotification) -> (Seq<char>, S13EquipmentStatus, S13EquipmentStatus, Seq<char>, u64, Seq<char>, bool) {
    (n.imei@, n.old_status, n.new_status, n.reason@, n.timestamp_secs, n.target_mme_realm@, n.acknowledged)
}

pub open spec fn notifs_view(v: Seq<EscnNotification>) -> Seq<(Seq<char>, S13EquipmentStatus, S13EquipmentStatus, Seq<char>, u64, Seq<char>, bool)> {
    v.map_values(|n: EscnNotification| notif_view(n))
}

/// The notifications queued for one change, one per subscribed MME in order.
pub open spec fn change_notifs(mmes: Seq<Seq<char>>, imei: Seq<char>, old: S13EquipmentStatus, new: S13EquipmentStatus, reason: Seq<char>, ts: u64) -> Seq<(Seq<char>, S13EquipmentStatus, S13EquipmentStatus, Seq<char>, u64, Seq<char>, bool)> {
    mmes.map_values(|m: Seq<char>| (imei, old, new, reason, ts, m, false))
}

/// The first unacknowledged notification for `imei` and `mme`.
pub open spec fn pending_pos(v: Seq<(Seq<char>, S13EquipmentStatus, S13EquipmentStatus, Seq<char>, u64, Seq<char>, bool)>, imei: Seq<char>, mme: Seq<char>) -> Option<int>
    decreases v.len(),
{
    if v.len() == 0 {
        None
    } else if v[0].0 == imei && v[0].5 == mme && !v[0].6 {
        Some(0)
    } else {
        match pending_pos(v.skip(1), imei, mme) {
            Some(i) => Some(i + 1),
            None => None,
        }
    }
}

proof fn lemma_pending_pos(v: Seq<(Seq<char>, S13EquipmentStatus, S13EquipmentStatus, Seq<char>, u64, Seq<char>, bool)>, imei: Seq<char>, mme: Seq<char>)
    ensures
        match pending_pos(v, imei, mme) {
            Some(i) => 0 <= i < v.len() && v[i].0 == imei && v[i].5 == mme && !v[i].6
                && forall|j: int| 0 <= j < i ==> !(v[j].0 == imei && v[j].5 == mme && !v[j].6),
            None => forall|j: int| 0 <= j < v.len() ==> !(v[j].0 == imei && v[j].5 == mme && !v[j].6),
        },
    decreases v.len(),
{
    if v.len() > 0 {
        lemma_pending_pos(v.skip(1), imei, mme);
        assert forall|j: int| 1 <= j < v.len() implies v[j] == v.skip(1)[j - 1] by {}
    }
}

/// The audit action text for a discrepancy.
pub open spec fn discrepancy_text(cached: S13EquipmentStatus, auth: S13EquipmentStatus) -> Seq<char> {
    "Discrepancy Fixed: Edge cache updated from "@ + status_name(cached) + " to "@ + status_name(auth)
}

/// What differs from `m`.
pub open spec fn other_than(m: Seq<char>) -> spec_fn(Seq<char>) -> bool {
    |x: Seq<char>| x != m
}

#[derive(Debug, Clone)]
pub struct S13EscnEngine {
    pub eir_realm: String,
    pub subscribed_mmes: Vec<String>,
    pub device_statuses: Vec<(String, S13EquipmentStatus)>,
    pub notifications: Vec<EscnNotification>,
    pub total_status_changes: u64,
    pub total_notifications_generated: u64,
    pub total_notifications_acked: u64,
    pub total_audits_performed: u64,
    pub total_discrepancies_fixed: u64,
}

/// The database as (IMEI, status) pairs.
pub open spec fn db_view(v: Seq<(String, S13EquipmentStatus)>) -> Seq<(Seq<char>, S13EquipmentStatus)> {
    v.map_values(|e: (String, S13EquipmentStatus)| (e.0@, e.1))
}

pub(crate) fn db_find(db: &Vec<(String, S13EquipmentStatus)>, imei: &str) -> (r: Option<usize>)
    ensures
        match r {
            Some(i) => db_pos(db_view(db@), imei@) == Some(i as int) && i < db@.len(),
            None => db_pos(db_view(db@), imei@) is None,
        },
{
    let ghost v = db_view(db@);
    proof {
        lemma_db_pos(v, imei@);
    }
    let mut i: usize = 0;
    while i < db.len()
        invariant
            i <= db@.len(),
            v == db_view(db@),
            forall|j: int| 0 <= j < i ==> #[trigger] v[j].0 != imei@,
            match db_pos(v, imei@) {
                Some(k) => 0 <= k < v.len() && v[k].0 == imei@ && forall|j: int| 0 <= j < k ==> v[j].0 != imei@,
                None => forall|j: int| 0 <= j < v.len() ==> v[j].0 != imei@,
            },
        decreases db@.len() - i,
    {
        assert(v[i as int].0 == db@[i as int].0@);
        if str_eq(db[i].0.as_str(), imei) {
            proof {
                let k = db_pos(v, imei@);
                if k is None {
                    assert(v[i as int].0 != imei@);
                } else if k.unwrap() > i {
                    assert(v[i as int].0 != imei@);
                }
            }
            return Some(i);
        }
        i = i + 1;
    }
    proof {
        if db_pos(v, imei@) is Some {
            let k = db_pos(v, imei@).unwrap();
            assert(v[k].0 != imei@);
        }
    }
    None
}

pub(crate) fn lookup(db: &Vec<(String, S13EquipmentStatus)>, imei: &str) -> (r: S13EquipmentStatus)
    ensures
        r == status_in(db_view(db@), imei@),
{
    proof {
        lemma_db_pos(db_view(db@), imei@);
    }
    match db_find(db, imei) {
        Some(i) => {
            assert(db_view(db@)[i as int] == (db@[i as int].0@, db@[i as int].1));
            db[i].1
        },
        None => S13EquipmentStatus::WhiteListed,
    }
}

impl S13EscnEngine {
    pub fn new(eir_realm: &str) -> (r: Self)
        ensures
            r.eir_realm@ == eir_realm@,
            r.subscribed_mmes@.len() == 0,
            r.device_statuses@.len() == 0,
            r.notifications@.len() == 0,
            r.total_status_changes == 0,
            r.total_notifications_generated == 0,
            r.total_notifications_acked == 0,
            r.total_audits_performed == 0,
            r.total_discrepancies_fixed == 0,
    {
        Self {
            eir_realm: eir_realm.to_owned(),
            subscribed_mmes: Vec::new(),
            device_statuses: Vec::new(),
            notifications: Vec::new(),
            total_status_changes: 0,
            total_notifications_generated: 0,
            total_notifications_acked: 0,
            total_audits_performed: 0,
            total_discrepancies_fixed: 0,
        }
    }

    /// Adds `mme_realm` to the subscribers unless it is already there.
    pub fn subscribe_mme(&mut self, mme_realm: &str)
        ensures
            strings_view(final(self).subscribed_mmes@) == if strings_view(old(self).subscribed_mmes@).contains(mme_realm@) {
                strings_view(old(self).subscribed_mmes@)
            } else {
                strings_view(old(self).subscribed_mmes@).push(mme_realm@)
            },
            final(self).device_statuses == old(self).device_statuses,
            final(self).notifications == old(self).notifications,
    {
        let mut i: usize = 0;
        while i < self.subscribed_mmes.len()
            invariant
                i <= self.subscribed_mmes@.len(),
                forall|j: int| 0 <= j < i ==> #[trigger] strings_view(self.subscribed_mmes@)[j] != mme_realm@,
            decreases self.subscribed_mmes@.len() - i,
        {
            if str_eq(self.subscribed_mmes[i].as_str(), mme_realm) {
                assert(strings_view(self.subscribed_mmes@)[i as int] == mme_realm@);
                return;
            }
            i = i + 1;
        }
        let ghost s0 = strings_view(self.subscribed_mmes@);
        self.subscribed_mmes.push(mme_realm.to_owned());
        assert(strings_view(self.subscribed_mmes@) =~= s0.push(mme_realm@));
    }

    /// Removes every subscription of `mme_realm`, keeping the others in order.
    pub fn unsubscribe_mme(&mut self, mme_realm: &str)
        ensures
            strings_view(final(self).subscribed_mmes@) == strings_view(old(self).subscribed_mmes@).filter(other_than(mme_realm@)),
            final(self).device_statuses == old(self).device_statuses,
            final(self).notifications == old(self).notifications,
    {
        let ghost sv = strings_view(self.subscribed_mmes@);
        let ghost p = other_than(mme_realm@);
        let mut kept: Vec<String> = Vec::new();
        let mut i: usize = 0;
        proof {
            reveal(Seq::filter);
        }
        assert(sv.subrange(0, 0) =~= Seq::<Seq<char>>::empty());
        while i < self.subscribed_mmes.len()
            invariant
                i <= self.subscribed_mmes@.len(),
                sv == strings_view(self.subscribed_mmes@),
                p == other_than(mme_realm@),
                strings_view(kept@) == sv.subrange(0, i as int).filter(p),
            decreases self.subscribed_mmes@.len() - i,
        {
            let ghost k0 = strings_view(kept@);
            assert(sv[i as int] == self.subscribed_mmes@[i as int]@);
            if !str_eq(self.subscribed_mmes[i].as_str(), mme_realm) {
                kept.push(self.subscribed_mmes[i].clone());
                assert(strings_view(kept@) =~= k0.push(sv[i as int]));
            }
            proof {
                assert(sv.subrange(0, i + 1) =~= sv.subrange(0, i as int).push(sv[i as int]));
                sv.subrange(0, i as int).lemma_filter_push(sv[i as int], p);
            }
            i = i + 1;
        }
        assert(sv.subrange(0, i as int) =~= sv);
        self.subscribed_mmes = kept;
    }

    /// Records a new status for an IMEI (trimmed). An IMEI that is not 14 to 16 digits is
    /// rejected; an unchanged status is ignored; otherwise the database is updated and one
    /// notification is queued per subscribed MME.
    pub fn update_equipment_status(&mut self, imei: &str, new_status: S13EquipmentStatus, reason: &str, timestamp_secs: u64) -> (r: EscnVerdict)
        requires
            old(self).total_status_changes < u64::MAX,
            old(self).total_notifications_generated + old(self).subscribed_mmes@.len() <= u64::MAX,
        ensures
            final(self).subscribed_mmes == old(self).subscribed_mmes,
            final(self).total_notifications_acked == old(self).total_notifications_acked,
            final(self).total_audits_performed == old(self).total_audits_performed,
            final(self).total_discrepancies_fixed == old(self).total_discrepancies_fixed,
            ({
                let t = trimmed(imei@);
                let db = db_view(old(self).device_statuses@);
                let old_status = status_in(db, t);
                if !imei_valid(t) {
                    &&& r matches EscnVerdict::InvalidImeiRejected { input } && input@ == imei@
                    &&& final(self).device_statuses == old(self).device_statuses
                    &&& final(self).notifications == old(self).notifications
                    &&& final(self).total_status_changes == old(self).total_status_changes
                    &&& final(self).total_notifications_generated == old(self).total_notifications_generated
                } else if old_status == new_status {
                    &&& r matches EscnVerdict::StatusUnchangedIgnored { imei: i, status } && i@ == t && status == old_status
                    &&& final(self).device_statuses == old(self).device_statuses
                    &&& final(self).notifications == old(self).notifications
                    &&& final(self).total_status_changes == old(self).total_status_changes
                    &&& final(self).total_notifications_generated == old(self).total_notifications_generated
                } else {
                    let n = old(self).subscribed_mmes@.len();
                    &&& r matches EscnVerdict::StatusChangedNotificationsQueued { imei: i, old_status: o, new_status: ns, notified_mme_count: c }
                        && i@ == t && o == old_status && ns == new_status && c == n
                    &&& db_view(final(self).device_statuses@) == match db_pos(db, t) {
                        Some(k) => db.update(k, (t, new_status)),
                        None => db.push((t, new_status)),
                    }
                    &&& notifs_view(final(self).notifications@) == notifs_view(old(self).notifications@)
                        + change_notifs(strings_view(old(self).subscribed_mmes@), t, old_status, new_status, reason@, timestamp_secs)
                    &&& final(self).total_status_changes == old(self).total_status_changes + 1
                    &&& final(self).total_notifications_generated == old(self).total_notifications_generated + n
                }
            }),
    {
        let clean = trim(imei);
        let b = clean.as_bytes();
        if b.len() < 14 || b.len() > 16 || !bytes_all_digits(b) {
            return EscnVerdict::InvalidImeiRejected { input: imei.to_owned() };
        }
        let ghost db = db_view(self.device_statuses@);
        proof {
            lemma_db_pos(db, clean@);
        }
        let old_status = lookup(&self.device_statuses, clean);
        if old_status == new_status {
            return EscnVerdict::StatusUnchangedIgnored { imei: clean.to_owned(), status: old_status };
        }
        match db_find(&self.device_statuses, clean) {
            Some(k) => {
                self.device_statuses.set(k, (clean.to_owned(), new_status));
                assert(db_view(self.device_statuses@) =~= db.update(k as int, (clean@, new_status)));
            },
            None => {
                self.device_statuses.push((clean.to_owned(), new_status));
                assert(db_view(self.device_statuses@) =~= db.push((clean@, new_status)));
            },
        }
        self.total_status_changes = self.total_status_changes + 1;
        let ghost nv0 = notifs_view(self.notifications@);
        let ghost mv = strings_view(self.subscribed_mmes@);
        let mut count: usize = 0;
        while count < self.subscribed_mmes.len()
            invariant
                count <= self.subscribed_mmes@.len(),
                mv == strings_view(self.subscribed_mmes@),
                self.subscribed_mmes == old(self).subscribed_mmes,
                self.total_notifications_generated == old(self).total_notifications_generated + count,
                old(self).total_notifications_generated + old(self).subscribed_mmes@.len() <= u64::MAX,
                notifs_view(self.notifications@) == nv0 + change_notifs(mv.subrange(0, count as int), clean@, old_status, new_status, reason@, timestamp_secs),
                self.total_status_changes == old(self).total_status_changes + 1,
                self.total_notifications_acked == old(self).total_notifications_acked,
                self.total_audits_performed == old(self).total_audits_performed,
                self.total_discrepancies_fixed == old(self).total_discrepancies_fixed,
                db_view(self.device_statuses@) == match db_pos(db, clean@) {
                    Some(k) => db.update(k, (clean@, new_status)),
                    None => db.push((clean@, new_status)),
                },
            decreases self.subscribed_mmes@.len() - count,
        {
            let ghost before = notifs_view(self.notifications@);
            let n = EscnNotification {
                imei: clean.to_owned(),
                old_status,
                new_status,
                reason: reason.to_owned(),
                timestamp_secs,
                target_mme_realm: self.subscribed_mmes[count].clone(),
                acknowledged: false,
            };
            self.notifications.push(n);
            self.total_notifications_generated = self.total_notifications_generated + 1;
            assert(change_notifs(mv.subrange(0, count + 1), clean@, old_status, new_status, reason@, timestamp_secs)
                =~= change_notifs(mv.subrange(0, count as int), clean@, old_status, new_status, reason@, timestamp_secs)
                    .push((clean@, old_status, new_status, reason@, timestamp_secs, mv[count as int], false)));
            assert(notifs_view(self.notifications@) =~= before.push((clean@, old_status, new_status, reason@, timestamp_secs, mv[count as int], false)));
            count = count + 1;
        }
        assert(mv.subrange(0, count as int) =~= mv);
        EscnVerdict::StatusChangedNotificationsQueued { imei: clean.to_owned(), old_status, new_status, notified_mme_count: count }
    }

    /// Marks the first unacknowledged notification for `imei` and `mme_realm` acknowledged;
    /// false when there is none.
    pub fn acknowledge_notification(&mut self, imei: &str, mme_realm: &str) -> (r: bool)
        requires
            old(self).total_notifications_acked < u64::MAX,
        ensures
            final(self).subscribed_mmes == old(self).subscribed_mmes,
            final(self).device_statuses == old(self).device_statuses,
            match pending_pos(notifs_view(old(self).notifications@), imei@, mme_realm@) {
                Some(i) => {
                    let nv = notifs_view(old(self).notifications@);
                    &&& r
                    &&& notifs_view(final(self).notifications@) == nv.update(i, (nv[i].0, nv[i].1, nv[i].2, nv[i].3, nv[i].4, nv[i].5, true))
                    &&& final(self).total_notifications_acked == old(self).total_notifications_acked + 1
                },
                None => {
                    &&& !r
                    &&& final(self).notifications == old(self).notifications
                    &&& final(self).total_notifications_acked == old(self).total_notifications_acked
                },
            },
    {
        let ghost nv = notifs_view(self.notifications@);
        proof {
            lemma_pending_pos(nv, imei@, mme_realm@);
        }
        let mut i: usize = 0;
        while i < self.notifications.len()
            invariant
                i <= self.notifications@.len(),
                nv == notifs_view(self.notifications@),
                self.notifications == old(self).notifications,
                self.subscribed_mmes == old(self).subscribed_mmes,
                self.device_statuses == old(self).device_statuses,
                self.total_notifications_acked == old(self).total_notifications_acked,
                old(self).total_notifications_acked < u64::MAX,
                forall|j: int| 0 <= j < i ==> !(#[trigger] nv[j].0 == imei@ && nv[j].5 == mme_realm@ && !nv[j].6),
                match pending_pos(nv, imei@, mme_realm@) {
                    Some(k) => 0 <= k < nv.len() && nv[k].0 == imei@ && nv[k].5 == mme_realm@ && !nv[k].6
                        && forall|j: int| 0 <= j < k ==> !(nv[j].0 == imei@ && nv[j].5 == mme_realm@ && !nv[j].6),
                    None => forall|j: int| 0 <= j < nv.len() ==> !(nv[j].0 == imei@ && nv[j].5 == mme_realm@ && !nv[j].6),
                },
            decreases self.notifications@.len() - i,
        {
            let n = &self.notifications[i];
            assert(nv[i as int] == notif_view(self.notifications@[i as int]));
            if str_eq(n.imei.as_str(), imei) && str_eq(n.target_mme_realm.as_str(), mme_realm) && !n.acknowledged {
                let updated = EscnNotification {
                    imei: n.imei.clone(),
                    old_status: n.old_status,
                    new_status: n.new_status,
                    reason: n.reason.clone(),
                    timestamp_secs: n.timestamp_secs,
                    target_mme_realm: n.target_mme_realm.clone(),
                    acknowledged: true,
                };
                proof {
                    let k = pending_pos(nv, imei@, mme_realm@);
                    if k is None {
                    } else if k.unwrap() > i {
                    }
                }
                self.notifications.set(i, updated);
                assert(notifs_view(self.notifications@) =~= nv.update(
                    i as int,
                    (nv[i as int].0, nv[i as int].1, nv[i as int].2, nv[i as int].3, nv[i as int].4, nv[i as int].5, true),
                ));
                self.total_notifications_acked = self.total_notifications_acked + 1;
                return true;
            }
            i = i + 1;
        }
        proof {
            if pending_pos(nv, imei@, mme_realm@) is Some {
                let k = pending_pos(nv, imei@, mme_realm@).unwrap();
                assert(!(nv[k].0 == imei@ && nv[k].5 == mme_realm@ && !nv[k].6));
            }
        }
        false
    }

    /// The status recorded for the trimmed IMEI, whitelisted when none.
    pub fn query_status(&self, imei: &str) -> (r: S13EquipmentStatus)
        ensures
            r == status_in(db_view(self.device_statuses@), trimmed(imei@)),
    {
        let clean = trim(imei);
        lookup(&self.device_statuses, clean)
    }

    /// Compares each cached (IMEI, status) with the database: one result per entry, in order;
    /// each mismatch counts as a fixed discrepancy.
    pub fn audit_edge_cache(&mut self, mme_realm: &str, cached_entries: &[(String, S13EquipmentStatus)]) -> (r: Vec<AuditReconciliationResult>)
        requires
            old(self).total_audits_performed < u64::MAX,
            old(self).total_discrepancies_fixed + cached_entries@.len() <= u64::MAX,
        ensures
            final(self).subscribed_mmes == old(self).subscribed_mmes,
            final(self).device_statuses == old(self).device_statuses,
            final(self).notifications == old(self).notifications,
            final(self).total_audits_performed == old(self).total_audits_performed + 1,
            r@.len() == cached_entries@.len(),
            forall|i: int| 0 <= i < r@.len() ==> {
                let (imei, cached) = cached_entries@[i];
                let auth = status_in(db_view(old(self).device_statuses@), trimmed(imei@));
                let res = #[trigger] r@[i];
                &&& res.imei@ == imei@
                &&& res.edge_cached_status == cached
                &&& res.eir_authoritative_status == auth
                &&& res.synchronized == (cached == auth)
                &&& res.action_taken@ == if cached == auth { "Synchronized - No Action"@ } else { discrepancy_text(cached, auth) }
            },
            final(self).total_discrepancies_fixed == old(self).total_discrepancies_fixed
                + Seq::new(cached_entries@.len(), |i: int| cached_entries@[i].1 != status_in(db_view(old(self).device_statuses@), trimmed(cached_entries@[i].0@)))
                    .filter(|b: bool| b).len(),
    {
        self.total_audits_performed = self.total_audits_performed + 1;
        let ghost flags = Seq::new(cached_entries@.len(), |i: int| cached_entries@[i].1 != status_in(db_view(old(self).device_statuses@), trimmed(cached_entries@[i].0@)));
        let ghost is_true = |b: bool| b;
        let mut results: Vec<AuditReconciliationResult> = Vec::new();
        let mut i: usize = 0;
        proof {
            reveal(Seq::filter);
            assert(flags.subrange(0, 0) =~= Seq::<bool>::empty());
        }
        while i < cached_entries.len()
            invariant
                i <= cached_entries@.len(),
                results@.len() == i,
                self.device_statuses == old(self).device_statuses,
                self.subscribed_mmes == old(self).subscribed_mmes,
                self.notifications == old(self).notifications,
                self.total_audits_performed == old(self).total_audits_performed + 1,
                flags == Seq::new(cached_entries@.len(), |i: int| cached_entries@[i].1 != status_in(db_view(old(self).device_statuses@), trimmed(cached_entries@[i].0@))),
                is_true == |b: bool| b,
                self.total_discrepancies_fixed == old(self).total_discrepancies_fixed + flags.subrange(0, i as int).filter(is_true).len(),
                flags.subrange(0, i as int).filter(is_true).len() <= i,
                old(self).total_discrepancies_fixed + cached_entries@.len() <= u64::MAX,
                forall|k: int| 0 <= k < i ==> {
                    let (imei, cached) = cached_entries@[k];
                    let auth = status_in(db_view(old(self).device_statuses@), trimmed(imei@));
                    let res = #[trigger] results@[k];
                    &&& res.imei@ == imei@
                    &&& res.edge_cached_status == cached
                    &&& res.eir_authoritative_status == auth
                    &&& res.synchronized == (cached == auth)
                    &&& res.action_taken@ == if cached == auth { "Synchronized - No Action"@ } else { discrepancy_text(cached, auth) }
                },
            decreases cached_entries@.len() - i,
        {
            let entry = &cached_entries[i];
            let cached_status = entry.1;
            let auth_status = self.query_status(entry.0.as_str());
            let synchronized = cached_status == auth_status;
            proof {
                assert(flags.subrange(0, i + 1) =~= flags.subrange(0, i as int).push(flags[i as int]));
                flags.subrange(0, i as int).lemma_filter_push(flags[i as int], is_true);
            }
            let action_taken = if synchronized {
                "Synchronized - No Action".to_owned()
            } else {
                self.total_discrepancies_fixed = self.total_discrepancies_fixed + 1;
                let a = concat("Discrepancy Fixed: Edge cache updated from ", cached_status.as_str());
                let b = concat(a.as_str(), " to ");
                concat(b.as_str(), auth_status.as_str())
            };
            results.push(AuditReconciliationResult {
                imei: entry.0.clone(),
                edge_cached_status: cached_status,
                eir_authoritative_status: auth_status,
                synchronized,
                action_taken,
            });
            i = i + 1;
        }
        assert(flags.subrange(0, i as int) =~= flags);
        results
    }
}

} // verus!
