//! Local EIR cache of a serving node (S13/S13'): IMEI classifications with time-to-live,
//! hit/miss/expiry accounting and purging.
use vstd::prelude::*;
use crate::text::owned;

verus! {

#[derive(Debug, Clone, Copy, PartialEq, Eq, Structural)]
pub enum EirEquipmentStatus {
    WhiteListed,
    BlackListed,
    GrayListed,
}

#[derive(Debug, Clone, PartialEq, Eq)]
pub struct EirCacheEntry {
    pub imei: String,
    pub status: EirEquipmentStatus,
    pub cached_at_secs: u64,
    pub expires_at_secs: u64,
    pub hit_count: u64,
}

impl EirCacheEntry {
    fn copy(&self) -> (r: Self)
        ensures
            r == *self,
    {
        EirCacheEntry {
            imei: self.imei.clone(),
            status: self.status,
            cached_at_secs: self.cached_at_secs,
            expires_at_secs: self.expires_at_secs,
            hit_count: self.hit_count,
        }
    }
}

#[derive(Debug, Clone, Copy, PartialEq, Eq, Structural)]
pub enum EirCacheLookupResult {
    Hit(EirEquipmentStatus),
    Expired { previous_status: EirEquipmentStatus, expired_secs_ago: u64 },
    Miss,
}

/// The first entry for `imei`.
pub open spec fn entry_index(entries: Seq<EirCacheEntry>, imei: Seq<char>) -> Option<int>
    decreases entries.len(),
{
    if entries.len() == 0 {
        None
    } else if entries[0].imei@ == imei {
        Some(0)
    } else {
        match entry_index(entries.skip(1), imei) {
            Some(i) => Some(i + 1),
            None => None,
        }
    }
}

proof fn lemma_entry_index(entries: Seq<EirCacheEntry>, imei: Seq<char>)
    ensures
        match entry_index(entries, imei) {
            Some(i) => 0 <= i < entries.len() && entries[i].imei@ == imei && forall|j: int|
                0 <= j < i ==> entries[j].imei@ != imei,
            None => forall|j: int| 0 <= j < entries.len() ==> entries[j].imei@ != imei,
        },
    decreases entries.len(),
{
    if entries.len() > 0 {
        lemma_entry_index(entries.skip(1), imei);
        assert forall|j: int| 1 <= j < entries.len() implies entries[j] == entries.skip(1)[j - 1] by {}
    }
}

fn find_entry(entries: &Vec<EirCacheEntry>, imei: &str) -> (r: Option<usize>)
    ensures
        match r {
            Some(p) => entry_index(entries@, imei@) == Some(p as int),
            None => entry_index(entries@, imei@) is None,
        },
{
    proof {
        lemma_entry_index(entries@, imei@);
    }
    let key = owned(imei);
    let mut i: usize = 0;
    while i < entries.len()
        invariant
            i <= entries@.len(),
            key@ == imei@,
            forall|j: int| 0 <= j < i ==> entries@[j].imei@ != imei@,
        decreases entries@.len() - i,
    {
        if entries[i].imei == key {
            proof {
                lemma_entry_index(entries@, imei@);
                assert(entries@[i as int].imei@ == imei@);
            }
            return Some(i);
        }
        i = i + 1;
    }
    None
}

pub open spec fn saturating_add(a: u64, b: u64) -> u64 {
    if a + b > u64::MAX {
        u64::MAX
    } else {
        (a + b) as u64
    }
}

/// Whether the entry is still valid at `now`.
pub open spec fn unexpired(now: u64) -> spec_fn(EirCacheEntry) -> bool {
    |e: EirCacheEntry| now < e.expires_at_secs
}

/// Local EIR cache engine.
pub struct DiameterS13CacheEngine {
    pub default_ttl_secs: u64,
    pub max_entries: usize,
    pub entries: Vec<EirCacheEntry>,
    pub total_hits: u64,
    pub total_misses: u64,
    pub total_expired: u64,
}

impl DiameterS13CacheEngine {
    /// A cache holding at least ten entries.
    pub fn new(default_ttl_secs: u64, max_entries: usize) -> (r: Self)
        ensures
            r.default_ttl_secs == default_ttl_secs,
            r.max_entries == (if max_entries > 10 { max_entries } else { 10 }),
            r.entries@.len() == 0,
            r.total_hits == 0 && r.total_misses == 0 && r.total_expired == 0,
    {
        DiameterS13CacheEngine {
            default_ttl_secs,
            max_entries: if max_entries > 10 {
                max_entries
            } else {
                10
            },
            entries: Vec::new(),
            total_hits: 0,
            total_misses: 0,
            total_expired: 0,
        }
    }

    /// Caches `status` for `imei` until `current_time_secs` plus the TTL (saturating). A
    /// present entry is refreshed in place; otherwise, when the cache is full, the oldest
    /// entry gives way and the new one goes last.
    pub fn insert(
        &mut self,
        imei: &str,
        status: EirEquipmentStatus,
        current_time_secs: u64,
        custom_ttl_secs: Option<u64>,
    )
        ensures
            ({
                let ttl = match custom_ttl_secs {
                    Some(t) => t,
                    None => old(self).default_ttl_secs,
                };
                let expires = saturating_add(current_time_secs, ttl);
                match entry_index(old(self).entries@, imei@) {
                    Some(p) => final(self).entries@ == old(self).entries@.update(
                        p,
                        EirCacheEntry {
                            status,
                            cached_at_secs: current_time_secs,
                            expires_at_secs: expires,
                            ..old(self).entries@[p]
                        },
                    ),
                    None => {
                        let kept = if old(self).entries@.len() >= old(self).max_entries && old(self).entries@.len() > 0 {
                            old(self).entries@.skip(1)
                        } else {
                            old(self).entries@
                        };
                        &&& final(self).entries@.len() == kept.len() + 1
                        &&& final(self).entries@.drop_last() == kept
                        &&& final(self).entries@.last().imei@ == imei@
                        &&& final(self).entries@.last().status == status
                        &&& final(self).entries@.last().cached_at_secs == current_time_secs
                        &&& final(self).entries@.last().expires_at_secs == expires
                        &&& final(self).entries@.last().hit_count == 0
                    },
                }
            }),
            final(self).default_ttl_secs == old(self).default_ttl_secs,
            final(self).max_entries == old(self).max_entries,
            final(self).total_hits == old(self).total_hits,
            final(self).total_misses == old(self).total_misses,
            final(self).total_expired == old(self).total_expired,
    {
        let ttl = match custom_ttl_secs {
            Some(t) => t,
            None => self.default_ttl_secs,
        };
        let expires_at = current_time_secs.saturating_add(ttl);
        match find_entry(&self.entries, imei) {
            Some(pos) => {
                proof {
                    lemma_entry_index(self.entries@, imei@);
                }
                let mut e = self.entries[pos].copy();
                e.status = status;
                e.cached_at_secs = current_time_secs;
                e.expires_at_secs = expires_at;
                self.entries.set(pos, e);
            },
            None => {
                if self.entries.len() >= self.max_entries && self.entries.len() > 0 {
                    self.entries.remove(0);
                    assert(self.entries@ =~= old(self).entries@.skip(1));
                }
                self.entries.push(
                    EirCacheEntry {
                        imei: owned(imei),
                        status,
                        cached_at_secs: current_time_secs,
                        expires_at_secs: expires_at,
                        hit_count: 0,
                    },
                );
            },
        }
    }

    /// Looks `imei` up at `current_time_secs`: a hit (counted on the entry) while it lives,
    /// the previous status and age of expiry once expired, a miss when absent.
    pub fn query(&mut self, imei: &str, current_time_secs: u64) -> (r: EirCacheLookupResult)
        requires
            old(self).total_hits < u64::MAX,
            old(self).total_misses < u64::MAX,
            old(self).total_expired < u64::MAX,
            forall|i: int| 0 <= i < old(self).entries@.len() ==> old(self).entries@[i].hit_count < u64::MAX,
        ensures
            final(self).default_ttl_secs == old(self).default_ttl_secs,
            final(self).max_entries == old(self).max_entries,
            match entry_index(old(self).entries@, imei@) {
                None => r == EirCacheLookupResult::Miss && final(self).entries@ == old(self).entries@
                    && final(self).total_misses == old(self).total_misses + 1
                    && final(self).total_hits == old(self).total_hits
                    && final(self).total_expired == old(self).total_expired,
                Some(p) => {
                    let e = old(self).entries@[p];
                    if current_time_secs >= e.expires_at_secs {
                        &&& r == EirCacheLookupResult::Expired {
                            previous_status: e.status,
                            expired_secs_ago: (current_time_secs - e.expires_at_secs) as u64,
                        }
                        &&& final(self).entries@ == old(self).entries@
                        &&& final(self).total_expired == old(self).total_expired + 1
                        &&& final(self).total_hits == old(self).total_hits
                        &&& final(self).total_misses == old(self).total_misses
                    } else {
                        &&& r == EirCacheLookupResult::Hit(e.status)
                        &&& final(self).entries@ == old(self).entries@.update(p, EirCacheEntry { hit_count: (e.hit_count + 1) as u64, ..e })
                        &&& final(self).total_hits == old(self).total_hits + 1
                        &&& final(self).total_misses == old(self).total_misses
                        &&& final(self).total_expired == old(self).total_expired
                    }
                },
            },
    {
        match find_entry(&self.entries, imei) {
            Some(pos) => {
                proof {
                    lemma_entry_index(self.entries@, imei@);
                }
                let exp = self.entries[pos].expires_at_secs;
                let st = self.entries[pos].status;
                if current_time_secs >= exp {
                    self.total_expired = self.total_expired + 1;
                    EirCacheLookupResult::Expired {
                        previous_status: st,
                        expired_secs_ago: current_time_secs - exp,
                    }
                } else {
                    let mut e = self.entries[pos].copy();
                    e.hit_count = e.hit_count + 1;
                    self.entries.set(pos, e);
                    self.total_hits = self.total_hits + 1;
                    EirCacheLookupResult::Hit(st)
                }
            },
            None => {
                self.total_misses = self.total_misses + 1;
                EirCacheLookupResult::Miss
            },
        }
    }

    /// Drops every expired entry, keeping the others in order; returns how many went.
    pub fn purge_expired(&mut self, current_time_secs: u64) -> (r: usize)
        ensures
            final(self).entries@ == old(self).entries@.filter(unexpired(current_time_secs)),
            r == old(self).entries@.len() - final(self).entries@.len(),
            final(self).default_ttl_secs == old(self).default_ttl_secs,
            final(self).max_entries == old(self).max_entries,
            final(self).total_hits == old(self).total_hits,
            final(self).total_misses == old(self).total_misses,
            final(self).total_expired == old(self).total_expired,
    {
        let initial_len = self.entries.len();
        let mut kept: Vec<EirCacheEntry> = Vec::new();
        let mut i: usize = 0;
        let ghost p = unexpired(current_time_secs);
        assert(self.entries@.subrange(0, 0) =~= Seq::<EirCacheEntry>::empty());
        proof {
            reveal(Seq::filter);
        }
        while i < self.entries.len()
            invariant
                i <= self.entries@.len(),
                self.entries@ == old(self).entries@,
                p == unexpired(current_time_secs),
                kept@ == self.entries@.subrange(0, i as int).filter(p),
                kept@.len() <= i,
            decreases self.entries@.len() - i,
        {
            assert(p(self.entries@[i as int]) == (current_time_secs < self.entries@[i as int].expires_at_secs));
            let ghost k0 = kept@;
            if current_time_secs < self.entries[i].expires_at_secs {
                let c = self.entries[i].copy();
                kept.push(c);
                assert(kept@ == k0.push(self.entries@[i as int]));
            }
            proof {
                assert(self.entries@.subrange(0, i + 1) =~= self.entries@.subrange(0, i as int).push(self.entries@[i as int]));
                self.entries@.subrange(0, i as int).lemma_filter_push(self.entries@[i as int], p);
            }
            i = i + 1;
        }
        assert(self.entries@.subrange(0, i as int) =~= self.entries@);
        proof {
            self.entries@.lemma_filter_len(p);
        }
        self.entries = kept;
        initial_len - self.entries.len()
    }
}

} // verus!
