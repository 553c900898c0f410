//! Temporary TAC whitelist leases for the EIR: a lease whitelists a TAC range for a time, then
//! greylists it for a grace period, then falls back to a configured status.
use vstd::prelude::*;
use vstd::string::*;
use vstd::utf8::encode_utf8;
use crate::text::{trim, trimmed};
use crate::diameter_s13_escn::S13EquipmentStatus;
use crate::diameter_s13_imei_tamper::{digits, all_digit_chars_pub};
use crate::diameter_s13_imei_range::{dec_value, imei_usable, tac8};

verus! {

broadcast use vstd::string::is_ascii_spec_bytes;

#[derive(Debug, Clone, Copy, PartialEq, Eq, Structural)]
pub enum LeaseStatus {
    Active,
    GracePeriod,
    Expired,
    Revoked,
}

#[derive(Debug, Clone, PartialEq, Eq)]
pub struct TemporaryTacLease {
    pub lease_id: u32,
    pub start_tac: u64,
    pub end_tac: u64,
    pub granted_at_s: u64,
    pub duration_s: u64,
    pub grace_period_s: u64,
    pub fallback_status: S13EquipmentStatus,
    pub description: String,
    pub is_revoked: bool,
}

#[derive(Debug, Clone, PartialEq, Eq)]
pub enum LeaseVerdict {
    LeaseActive { lease_id: u32, imei: String, tac: u64, remaining_s: u64, status: S13EquipmentStatus },
    LeaseInGracePeriod { lease_id: u32, imei: String, tac: u64, grace_remaining_s: u64, status: S13EquipmentStatus },
    LeaseExpiredFallback { lease_id: u32, imei: String, tac: u64, fallback_status: S13EquipmentStatus },
    NoLeaseFound { imei: String, tac: u64, default_status: S13EquipmentStatus },
    InvalidImeiFormat { input: String },
}

/// Whether every lease that is not revoked has a grace end that fits in 64 bits.
pub open spec fn leases_fit(v: Seq<TemporaryTacLease>) -> bool {
    forall|i: int| 0 <= i < v.len() ==> (!(#[trigger] v[i]).is_revoked ==> v[i].duration_s + v[i].grace_period_s <= u64::MAX)
}

/// The first lease with `id`.
pub open spec fn lease_pos(v: Seq<TemporaryTacLease>, id: u32) -> Option<int>
    decreases v.len(),
{
    if v.len() == 0 {
        None
    } else if v[0].lease_id == id {
        Some(0)
    } else {
        match lease_pos(v.skip(1), id) {
            Some(i) => Some(i + 1),
            None => None,
        }
    }
}

proof fn lemma_lease_pos(v: Seq<TemporaryTacLease>, id: u32)
    ensures
        match lease_pos(v, id) {
            Some(i) => 0 <= i < v.len() && v[i].lease_id == id && forall|j: int| 0 <= j < i ==> (#[trigger] v[j]).lease_id != id,
            None => forall|j: int| 0 <= j < v.len() ==> (#[trigger] v[j]).lease_id != id,
        },
    decreases v.len(),
{
    if v.len() > 0 {
        lemma_lease_pos(v.skip(1), id);
        assert forall|j: int| 1 <= j < v.len() implies v[j] == v.skip(1)[j - 1] by {}
    }
}

/// The first lease whose range holds `tac`.
pub open spec fn covering(v: Seq<TemporaryTacLease>, tac: u64) -> Option<int>
    decreases v.len(),
{
    if v.len() == 0 {
        None
    } else if v[0].start_tac <= tac <= v[0].end_tac {
        Some(0)
    } else {
        match covering(v.skip(1), tac) {
            Some(i) => Some(i + 1),
            None => None,
        }
    }
}

proof fn lemma_covering(v: Seq<TemporaryTacLease>, tac: u64)
    ensures
        match covering(v, tac) {
            Some(i) => 0 <= i < v.len() && v[i].start_tac <= tac <= v[i].end_tac
                && forall|j: int| 0 <= j < i ==> !((#[trigger] v[j]).start_tac <= tac <= v[j].end_tac),
            None => forall|j: int| 0 <= j < v.len() ==> !((#[trigger] v[j]).start_tac <= tac <= v[j].end_tac),
        },
    decreases v.len(),
{
    if v.len() > 0 {
        lemma_covering(v.skip(1), tac);
        assert forall|j: int| 1 <= j < v.len() implies v[j] == v.skip(1)[j - 1] by {}
    }
}

/// The identifiers of the leases that are revoked or past their grace period at `now`.
pub open spec fn swept_ids(v: Seq<TemporaryTacLease>, now: u64) -> Seq<u32>
    decreases v.len(),
{
    if v.len() == 0 {
        Seq::empty()
    } else {
        let l = v.last();
        let rest = swept_ids(v.drop_last(), now);
        if l.is_revoked || now.saturating_sub(l.granted_at_s) >= l.duration_s + l.grace_period_s {
            rest.push(l.lease_id)
        } else {
            rest
        }
    }
}

#[derive(Debug, Clone)]
pub struct DiameterS13TacWhitelistExpiryEngine {
    pub leases: Vec<TemporaryTacLease>,
    pub next_lease_id: u32,
    pub total_queries: usize,
    pub total_active_matches: usize,
    pub total_grace_matches: usize,
    pub total_expired_fallbacks: usize,
    pub total_default_matches: usize,
    pub total_invalid_queries: usize,
}

/// The counters of an engine.
pub open spec fn counters(e: DiameterS13TacWhitelistExpiryEngine) -> (int, int, int, int, int, int) {
    (e.total_queries as int, e.total_active_matches as int, e.total_grace_matches as int, e.total_expired_fallbacks as int,
        e.total_default_matches as int, e.total_invalid_queries as int)
}

impl Default for DiameterS13TacWhitelistExpiryEngine {
    fn default() -> (r: Self)
        ensures
            r.leases@.len() == 0,
            r.next_lease_id == 1,
    {
        Self::new()
    }
}

impl DiameterS13TacWhitelistExpiryEngine {
    pub fn new() -> (r: Self)
        ensures
            r.leases@.len() == 0,
            r.next_lease_id == 1,
            counters(r) == (0int, 0int, 0int, 0int, 0int, 0int),
    {
        Self {
            leases: Vec::new(),
            next_lease_id: 1,
            total_queries: 0,
            total_active_matches: 0,
            total_grace_matches: 0,
            total_expired_fallbacks: 0,
            total_default_matches: 0,
            total_invalid_queries: 0,
        }
    }

    /// Grants a lease over the range between the two TACs (in either order), lasting at least
    /// one second, under the next identifier, which it returns.
    pub fn grant_lease(
        &mut self,
        start_tac: u64,
        end_tac: u64,
        granted_at_s: u64,
        duration_s: u64,
        grace_period_s: u64,
        fallback_status: S13EquipmentStatus,
        description: &str,
    ) -> (r: u32)
        requires
            old(self).next_lease_id < u32::MAX,
        ensures
            r == old(self).next_lease_id,
            final(self).next_lease_id == old(self).next_lease_id + 1,
            counters(*final(self)) == counters(*old(self)),
            final(self).leases@.len() == old(self).leases@.len() + 1,
            final(self).leases@.drop_last() == old(self).leases@,
            ({
                let l = final(self).leases@.last();
                &&& l.lease_id == r
                &&& l.start_tac == if start_tac <= end_tac { start_tac } else { end_tac }
                &&& l.end_tac == if start_tac <= end_tac { end_tac } else { start_tac }
                &&& l.granted_at_s == granted_at_s
                &&& l.duration_s == if duration_s >= 1 { duration_s } else { 1 }
                &&& l.grace_period_s == grace_period_s
                &&& l.fallback_status == fallback_status
                &&& l.description@ == description@
                &&& !l.is_revoked
            }),
    {
        let (min_tac, max_tac) = if start_tac <= end_tac { (start_tac, end_tac) } else { (end_tac, start_tac) };
        let lease_id = self.next_lease_id;
        self.next_lease_id = self.next_lease_id + 1;
        let d = if duration_s >= 1 { duration_s } else { 1 };
        self.leases.push(TemporaryTacLease {
            lease_id,
            start_tac: min_tac,
            end_tac: max_tac,
            granted_at_s,
            duration_s: d,
            grace_period_s,
            fallback_status,
            description: description.to_owned(),
            is_revoked: false,
        });
        assert(self.leases@.drop_last() =~= old(self).leases@);
        lease_id
    }

    fn find(&self, lease_id: u32) -> (r: Option<usize>)
        ensures
            match r {
                Some(i) => lease_pos(self.leases@, lease_id) == Some(i as int) && i < self.leases@.len(),
                None => lease_pos(self.leases@, lease_id) is None,
            },
    {
        proof {
            lemma_lease_pos(self.leases@, lease_id);
        }
        let mut i: usize = 0;
        while i < self.leases.len()
            invariant
                i <= self.leases@.len(),
                forall|j: int| 0 <= j < i ==> (#[trigger] self.leases@[j]).lease_id != lease_id,
                match lease_pos(self.leases@, lease_id) {
                    Some(k) => 0 <= k < self.leases@.len() && self.leases@[k].lease_id == lease_id
                        && forall|j: int| 0 <= j < k ==> (#[trigger] self.leases@[j]).lease_id != lease_id,
                    None => forall|j: int| 0 <= j < self.leases@.len() ==> (#[trigger] self.leases@[j]).lease_id != lease_id,
                },
            decreases self.leases@.len() - i,
        {
            if self.leases[i].lease_id == lease_id {
                proof {
                    let k = lease_pos(self.leases@, lease_id);
                    if k is None {
                    } else if k.unwrap() > i {
                    }
                }
                return Some(i);
            }
            i = i + 1;
        }
        None
    }

    /// Extends the first lease with `lease_id` by `extension_s`, unless it is revoked; tells
    /// whether it did.
    pub fn renew_lease(&mut self, lease_id: u32, extension_s: u64) -> (r: bool)
        requires
            match lease_pos(old(self).leases@, lease_id) {
                Some(k) => !old(self).leases@[k].is_revoked ==> old(self).leases@[k].duration_s + extension_s <= u64::MAX,
                None => true,
            },
        ensures
            counters(*final(self)) == counters(*old(self)),
            final(self).next_lease_id == old(self).next_lease_id,
            match lease_pos(old(self).leases@, lease_id) {
                Some(k) => if !old(self).leases@[k].is_revoked {
                    &&& r
                    &&& final(self).leases@ == old(self).leases@.update(k, TemporaryTacLease {
                        duration_s: (old(self).leases@[k].duration_s + extension_s) as u64,
                        ..old(self).leases@[k]
                    })
                } else {
                    !r && final(self).leases@ == old(self).leases@
                },
                None => !r && final(self).leases@ == old(self).leases@,
            },
    {
        match self.find(lease_id) {
            Some(i) => {
                if !self.leases[i].is_revoked {
                    let mut l = self.leases.remove(i);
                    l.duration_s = l.duration_s + extension_s;
                    self.leases.insert(i, l);
                    assert(self.leases@ =~= old(self).leases@.update(i as int, TemporaryTacLease {
                        duration_s: (old(self).leases@[i as int].duration_s + extension_s) as u64,
                        ..old(self).leases@[i as int]
                    }));
                    return true;
                }
                false
            },
            None => false,
        }
    }

    /// Revokes the first lease with `lease_id`; tells whether there was one.
    pub fn revoke_lease(&mut self, lease_id: u32) -> (r: bool)
        ensures
            counters(*final(self)) == counters(*old(self)),
            final(self).next_lease_id == old(self).next_lease_id,
            match lease_pos(old(self).leases@, lease_id) {
                Some(k) => r && final(self).leases@ == old(self).leases@.update(k, TemporaryTacLease { is_revoked: true, ..old(self).leases@[k] }),
                None => !r && final(self).leases@ == old(self).leases@,
            },
    {
        match self.find(lease_id) {
            Some(i) => {
                let mut l = self.leases.remove(i);
                l.is_revoked = true;
                self.leases.insert(i, l);
                assert(self.leases@ =~= old(self).leases@.update(i as int, TemporaryTacLease { is_revoked: true, ..old(self).leases@[i as int] }));
                true
            },
            None => false,
        }
    }

    /// Judges an IMEI (trimmed) at `current_time_s`: fewer than eight octets or non-digits are
    /// invalid; otherwise the first lease covering its TAC decides: revoked or past its grace
    /// period gives the fallback status, within its duration whitelisted with the time left,
    /// within the grace period greylisted with the grace left. Without a lease, whitelisted.
    pub fn evaluate_imei(&mut self, imei: &str, current_time_s: u64) -> (r: LeaseVerdict)
        requires
            old(self).total_queries < usize::MAX,
            old(self).total_active_matches < usize::MAX,
            old(self).total_grace_matches < usize::MAX,
            old(self).total_expired_fallbacks < usize::MAX,
            old(self).total_default_matches < usize::MAX,
            old(self).total_invalid_queries < usize::MAX,
        ensures
            final(self).leases == old(self).leases,
            final(self).next_lease_id == old(self).next_lease_id,
            final(self).total_queries == old(self).total_queries + 1,
            ({
                let t = trimmed(imei@);
                let o = counters(*old(self));
                let f = counters(*final(self));
                if !imei_usable(t) {
                    &&& r matches LeaseVerdict::InvalidImeiFormat { input } && input@ == imei@
                    &&& f == (o.0 + 1, o.1, o.2, o.3, o.4, o.5 + 1)
                } else {
                    let tac = dec_value(t, 8) as u64;
                    match covering(old(self).leases@, tac) {
                        None => {
                            &&& r matches LeaseVerdict::NoLeaseFound { imei: i, tac: tc, default_status } && i@ == t && tc == tac
                                && default_status == S13EquipmentStatus::WhiteListed
                            &&& f == (o.0 + 1, o.1, o.2, o.3, o.4 + 1, o.5)
                        },
                        Some(k) => {
                            let l = old(self).leases@[k];
                            let elapsed = current_time_s.saturating_sub(l.granted_at_s);
                            if !l.is_revoked && elapsed < l.duration_s {
                                &&& r matches LeaseVerdict::LeaseActive { lease_id, imei: i, tac: tc, remaining_s, status }
                                    && lease_id == l.lease_id && i@ == t && tc == tac && remaining_s == l.duration_s - elapsed
                                    && status == S13EquipmentStatus::WhiteListed
                                &&& f == (o.0 + 1, o.1 + 1, o.2, o.3, o.4, o.5)
                            } else if !l.is_revoked && elapsed < l.duration_s + l.grace_period_s {
                                &&& r matches LeaseVerdict::LeaseInGracePeriod { lease_id, imei: i, tac: tc, grace_remaining_s, status }
                                    && lease_id == l.lease_id && i@ == t && tc == tac
                                    && grace_remaining_s == l.duration_s + l.grace_period_s - elapsed
                                    && status == S13EquipmentStatus::GrayListed
                                &&& f == (o.0 + 1, o.1, o.2 + 1, o.3, o.4, o.5)
                            } else {
                                &&& r matches LeaseVerdict::LeaseExpiredFallback { lease_id, imei: i, tac: tc, fallback_status }
                                    && lease_id == l.lease_id && i@ == t && tc == tac && fallback_status == l.fallback_status
                                &&& f == (o.0 + 1, o.1, o.2, o.3 + 1, o.4, o.5)
                            }
                        },
                    }
                }
            }),
    {
        self.total_queries = self.total_queries + 1;
        let clean = trim(imei);
        let ok = all_digit_chars_pub(clean);
        assert(clean.spec_bytes() == encode_utf8(clean@));
        if clean.as_bytes().len() < 8 || !ok {
            self.total_invalid_queries = self.total_invalid_queries + 1;
            return LeaseVerdict::InvalidImeiFormat { input: imei.to_owned() };
        }
        assert(clean.spec_bytes().len() == clean@.len());
        let tac = tac8(clean);
        proof {
            lemma_covering(self.leases@, tac);
        }
        let mut i: usize = 0;
        while i < self.leases.len()
            invariant
                i <= self.leases@.len(),
                self.leases == old(self).leases,
                forall|j: int| 0 <= j < i ==> !((#[trigger] self.leases@[j]).start_tac <= tac <= self.leases@[j].end_tac),
                match covering(self.leases@, tac) {
                    Some(k) => 0 <= k < self.leases@.len() && self.leases@[k].start_tac <= tac <= self.leases@[k].end_tac
                        && forall|j: int| 0 <= j < k ==> !((#[trigger] self.leases@[j]).start_tac <= tac <= self.leases@[j].end_tac),
                    None => forall|j: int| 0 <= j < self.leases@.len() ==> !((#[trigger] self.leases@[j]).start_tac <= tac <= self.leases@[j].end_tac),
                },
                self.next_lease_id == old(self).next_lease_id,
                counters(*self) == (old(self).total_queries + 1, old(self).total_active_matches as int, old(self).total_grace_matches as int,
                    old(self).total_expired_fallbacks as int, old(self).total_default_matches as int, old(self).total_invalid_queries as int),
                old(self).total_active_matches < usize::MAX,
                old(self).total_grace_matches < usize::MAX,
                old(self).total_expired_fallbacks < usize::MAX,
                clean@ == trimmed(imei@),
                imei_usable(clean@),
                tac == dec_value(clean@, 8),
            decreases self.leases@.len() - i,
        {
            let lease = &self.leases[i];
            if tac >= lease.start_tac && tac <= lease.end_tac {
                proof {
                    let k = covering(self.leases@, tac);
                    if k is None {
                    } else if k.unwrap() > i {
                    }
                }
                if lease.is_revoked {
                    self.total_expired_fallbacks = self.total_expired_fallbacks + 1;
                    let lease = &self.leases[i];
                    return LeaseVerdict::LeaseExpiredFallback { lease_id: lease.lease_id, imei: clean.to_owned(), tac, fallback_status: lease.fallback_status };
                }
                let elapsed = current_time_s.saturating_sub(lease.granted_at_s);
                if elapsed < lease.duration_s {
                    let remaining = lease.duration_s - elapsed;
                    let id = lease.lease_id;
                    self.total_active_matches = self.total_active_matches + 1;
                    return LeaseVerdict::LeaseActive { lease_id: id, imei: clean.to_owned(), tac, remaining_s: remaining, status: S13EquipmentStatus::WhiteListed };
                } else if elapsed - lease.duration_s < lease.grace_period_s {
                    let grace_remaining = lease.grace_period_s - (elapsed - lease.duration_s);
                    let id = lease.lease_id;
                    self.total_grace_matches = self.total_grace_matches + 1;
                    return LeaseVerdict::LeaseInGracePeriod {
                        lease_id: id,
                        imei: clean.to_owned(),
                        tac,
                        grace_remaining_s: grace_remaining,
                        status: S13EquipmentStatus::GrayListed,
                    };
                } else {
                    let id = lease.lease_id;
                    let fb = lease.fallback_status;
                    self.total_expired_fallbacks = self.total_expired_fallbacks + 1;
                    return LeaseVerdict::LeaseExpiredFallback { lease_id: id, imei: clean.to_owned(), tac, fallback_status: fb };
                }
            }
            i = i + 1;
        }
        self.total_default_matches = self.total_default_matches + 1;
        LeaseVerdict::NoLeaseFound { imei: clean.to_owned(), tac, default_status: S13EquipmentStatus::WhiteListed }
    }

    /// The identifiers of the leases that are revoked or past their grace period, in order.
    pub fn sweep_expired_leases(&self, current_time_s: u64) -> (r: Vec<u32>)
        requires
            leases_fit(self.leases@),
        ensures
            r@ == swept_ids(self.leases@, current_time_s),
    {
        let mut out: Vec<u32> = Vec::new();
        let mut i: usize = 0;
        assert(self.leases@.subrange(0, 0) =~= Seq::<TemporaryTacLease>::empty());
        while i < self.leases.len()
            invariant
                i <= self.leases@.len(),
                leases_fit(self.leases@),
                out@ == swept_ids(self.leases@.subrange(0, i as int), current_time_s),
            decreases self.leases@.len() - i,
        {
            let l = &self.leases[i];
            assert(self.leases@.subrange(0, i + 1).drop_last() =~= self.leases@.subrange(0, i as int));
            assert(!self.leases@[i as int].is_revoked ==> self.leases@[i as int].duration_s + self.leases@[i as int].grace_period_s <= u64::MAX);
            if l.is_revoked || current_time_s.saturating_sub(l.granted_at_s) >= l.duration_s + l.grace_period_s {
                out.push(l.lease_id);
            }
            i = i + 1;
        }
        assert(self.leases@.subrange(0, i as int) =~= self.leases@);
        out
    }

    /// Drops every lease and restarts identifiers and counters.
    pub fn reset(&mut self)
        ensures
            final(self).leases@.len() == 0,
            final(self).next_lease_id == 1,
            counters(*final(self)) == (0int, 0int, 0int, 0int, 0int, 0int),
    {
        self.leases.clear();
        self.next_lease_id = 1;
        self.total_queries = 0;
        self.total_active_matches = 0;
        self.total_grace_matches = 0;
        self.total_expired_fallbacks = 0;
        self.total_default_matches = 0;
        self.total_invalid_queries = 0;
    }
}

} // verus!
