//! TAC range rules for the EIR: the highest-priority range containing an IMEI's TAC decides
//! its status; IMEIs outside every range default to whitelisted.
use vstd::prelude::*;
use vstd::string::*;
use vstd::utf8::encode_utf8;
use crate::text::{trim, trimmed};
use crate::diameter_s13_escn::S13EquipmentStatus;
use crate::diameter_s13_imei_tamper::{digits, dval, all_digit_chars_pub};

verus! {

broadcast use vstd::string::is_ascii_spec_bytes;

#[derive(Debug, Clone, PartialEq, Eq)]
pub struct ImeiRangeRule {
    pub start_tac: u64,
    pub end_tac: u64,
    pub status: S13EquipmentStatus,
    pub description: String,
    pub priority: u32,
}

#[derive(Debug, Clone, PartialEq, Eq)]
pub enum ImeiRangeVerdict {
    RangeMatched { imei: String, tac: u64, status: S13EquipmentStatus, description: String, priority: u32 },
    DefaultWhiteListed { imei: String, tac: u64 },
    InvalidImeiFormat { input: String },
}

/// The decimal value of the first `n` digits of `s`.
pub open spec fn dec_value(s: Seq<char>, n: int) -> int
    decreases n,
{
    if n <= 0 {
        0
    } else {
        dec_value(s, n - 1) * 10 + dval(s[n - 1])
    }
}

proof fn lemma_dec_value_bound(s: Seq<char>, n: int)
    requires
        digits(s),
        0 <= n <= s.len(),
    ensures
        0 <= dec_value(s, n) < pow10(n),
    decreases n,
{
    if n > 0 {
        lemma_dec_value_bound(s, n - 1);
        assert('0' <= s[n - 1] <= '9');
    }
}

/// Ten to the power `n`.
pub open spec fn pow10(n: int) -> int
    decreases n,
{
    if n <= 0 {
        1
    } else {
        10 * pow10(n - 1)
    }
}

/// The TAC of an ASCII-digit IMEI: the value of its first eight digits.
pub(crate) fn tac8(s: &str) -> (r: u64)
    requires
        s.is_ascii(),
        digits(s@),
        s@.len() >= 8,
    ensures
        r == dec_value(s@, 8),
{
    let mut v: u64 = 0;
    let mut i: usize = 0;
    while i < 8
        invariant
            s.is_ascii(),
            digits(s@),
            s@.len() >= 8,
            i <= 8,
            v == dec_value(s@, i as int),
            v < pow10(i as int),
        decreases 8 - i,
    {
        assert('0' <= s@[i as int] <= '9');
        proof {
            assert(pow10(i + 1) == 10 * pow10(i as int));
            assert(pow10(8) == 100_000_000) by {
                reveal_with_fuel(pow10, 9);
            }
            lemma_pow10_mono(i + 1, 8);
        }
        let d = (s.get_ascii(i) - 48) as u64;
        v = v * 10 + d;
        i = i + 1;
    }
    v
}

proof fn lemma_pow10_mono(a: int, b: int)
    requires
        0 <= a <= b,
    ensures
        pow10(a) <= pow10(b),
    decreases b - a,
{
    if a < b {
        lemma_pow10_mono(a, b - 1);
        assert(pow10(b) == 10 * pow10(b - 1));
        lemma_pow10_pos(b - 1);
    }
}

proof fn lemma_pow10_pos(a: int)
    ensures
        pow10(a) >= 1,
    decreases a,
{
    if a > 0 {
        lemma_pow10_pos(a - 1);
    }
}

/// Whether a trimmed IMEI can be judged: at least eight octets, all digits.
pub open spec fn imei_usable(t: Seq<char>) -> bool {
    encode_utf8(t).len() >= 8 && digits(t)
}

/// Where `x` goes in `v`: before the first rule of lower priority.
pub open spec fn insert_pos(v: Seq<ImeiRangeRule>, x: ImeiRangeRule) -> int
    decreases v.len(),
{
    if v.len() == 0 {
        0
    } else if v[0].priority < x.priority {
        0
    } else {
        1 + insert_pos(v.skip(1), x)
    }
}

/// `v` with `x` inserted after every rule of at least its priority.
pub open spec fn insert_desc(v: Seq<ImeiRangeRule>, x: ImeiRangeRule) -> Seq<ImeiRangeRule> {
    v.insert(insert_pos(v, x), x)
}

/// The rules stably sorted by descending priority (insertion sort).
pub open spec fn sort_desc(v: Seq<ImeiRangeRule>) -> Seq<ImeiRangeRule>
    decreases v.len(),
{
    if v.len() == 0 {
        v
    } else {
        insert_desc(sort_desc(v.drop_last()), v.last())
    }
}

proof fn lemma_insert_pos(v: Seq<ImeiRangeRule>, x: ImeiRangeRule)
    ensures
        0 <= insert_pos(v, x) <= v.len(),
        forall|j: int| 0 <= j < insert_pos(v, x) ==> !(#[trigger] v[j].priority < x.priority),
        insert_pos(v, x) < v.len() ==> v[insert_pos(v, x)].priority < x.priority,
    decreases v.len(),
{
    if v.len() > 0 && !(v[0].priority < x.priority) {
        lemma_insert_pos(v.skip(1), x);
        assert forall|j: int| 1 <= j < v.len() implies v[j] == v.skip(1)[j - 1] by {}
    }
}

proof fn lemma_sort_len(v: Seq<ImeiRangeRule>)
    ensures
        sort_desc(v).len() == v.len(),
    decreases v.len(),
{
    if v.len() > 0 {
        lemma_sort_len(v.drop_last());
        lemma_insert_pos(sort_desc(v.drop_last()), v.last());
    }
}

/// The first rule whose range holds `tac`.
pub open spec fn first_rule(v: Seq<ImeiRangeRule>, tac: u64) -> Option<int>
    decreases v.len(),
{
    if v.len() == 0 {
        None
    } else if v[0].start_tac <= tac <= v[0].end_tac {
        Some(0)
    } else {
        match first_rule(v.skip(1), tac) {
            Some(i) => Some(i + 1),
            None => None,
        }
    }
}

proof fn lemma_first_rule(v: Seq<ImeiRangeRule>, tac: u64)
    ensures
        match first_rule(v, tac) {
            Some(i) => 0 <= i < v.len() && v[i].start_tac <= tac <= v[i].end_tac
                && forall|j: int| 0 <= j < i ==> !(#[trigger] v[j].start_tac <= tac <= v[j].end_tac),
            None => forall|j: int| 0 <= j < v.len() ==> !(#[trigger] v[j].start_tac <= tac <= v[j].end_tac),
        },
    decreases v.len(),
{
    if v.len() > 0 {
        lemma_first_rule(v.skip(1), tac);
        assert forall|j: int| 1 <= j < v.len() implies v[j] == v.skip(1)[j - 1] by {}
    }
}

#[derive(Debug, Clone)]
pub struct DiameterS13ImeiRangeEngine {
    pub rules: Vec<ImeiRangeRule>,
    pub total_queries: usize,
    pub total_range_matches: usize,
    pub total_default_matches: usize,
    pub total_invalid_queries: usize,
}

impl Default for DiameterS13ImeiRangeEngine {
    fn default() -> (r: Self)
        ensures
            r.rules@.len() == 0,
            r.total_queries == 0,
    {
        Self::new()
    }
}

fn insert_sorted(v: &mut Vec<ImeiRangeRule>, x: ImeiRangeRule)
    ensures
        final(v)@ == insert_desc(old(v)@, x),
{
    proof {
        lemma_insert_pos(v@, x);
    }
    let mut k: usize = 0;
    while k < v.len() && !(v[k].priority < x.priority)
        invariant
            k <= v@.len(),
            v@ == old(v)@,
            forall|j: int| 0 <= j < k ==> !(#[trigger] v@[j].priority < x.priority),
            0 <= insert_pos(v@, x) <= v@.len(),
            forall|j: int| 0 <= j < insert_pos(v@, x) ==> !(#[trigger] v@[j].priority < x.priority),
            insert_pos(v@, x) < v@.len() ==> v@[insert_pos(v@, x)].priority < x.priority,
        decreases v@.len() - k,
    {
        k = k + 1;
    }
    assert(k == insert_pos(v@, x));
    v.insert(k, x);
}

impl DiameterS13ImeiRangeEngine {
    pub fn new() -> (r: Self)
        ensures
            r.rules@.len() == 0,
            r.total_queries == 0,
            r.total_range_matches == 0,
            r.total_default_matches == 0,
            r.total_invalid_queries == 0,
    {
        Self { rules: Vec::new(), total_queries: 0, total_range_matches: 0, total_default_matches: 0, total_invalid_queries: 0 }
    }

    /// Adds a rule over the range between the two TACs (in either order), then orders the rules
    /// by descending priority, keeping equal priorities in their order.
    pub fn add_rule(&mut self, start_tac: u64, end_tac: u64, status: S13EquipmentStatus, description: &str, priority: u32)
        ensures
            final(self).rules@.len() == old(self).rules@.len() + 1,
            exists|n: ImeiRangeRule| {
                &&& n.start_tac == (if start_tac <= end_tac { start_tac } else { end_tac })
                &&& n.end_tac == (if start_tac <= end_tac { end_tac } else { start_tac })
                &&& n.status == status
                &&& n.description@ == description@
                &&& n.priority == priority
                &&& final(self).rules@ == #[trigger] sort_desc(old(self).rules@.push(n))
            },
            final(self).total_queries == old(self).total_queries,
            final(self).total_range_matches == old(self).total_range_matches,
            final(self).total_default_matches == old(self).total_default_matches,
            final(self).total_invalid_queries == old(self).total_invalid_queries,
    {
        let (min_tac, max_tac) = if start_tac <= end_tac { (start_tac, end_tac) } else { (end_tac, start_tac) };
        let n = ImeiRangeRule { start_tac: min_tac, end_tac: max_tac, status, description: description.to_owned(), priority };
        let ghost all = self.rules@.push(n);
        let ghost nn = n;
        let mut pending: Vec<ImeiRangeRule> = Vec::new();
        std::mem::swap(&mut pending, &mut self.rules);
        pending.push(n);
        assert(pending@ == all);
        let mut sorted: Vec<ImeiRangeRule> = Vec::new();
        let mut i: usize = 0;
        let total = pending.len();
        assert(all.subrange(0, 0) =~= Seq::<ImeiRangeRule>::empty());
        while pending.len() > 0
            invariant
                i + pending@.len() == total,
                total == all.len(),
                pending@ == all.subrange(i as int, total as int),
                sorted@ == sort_desc(all.subrange(0, i as int)),
                self.rules@.len() == 0,
                self.total_queries == old(self).total_queries,
                self.total_range_matches == old(self).total_range_matches,
                self.total_default_matches == old(self).total_default_matches,
                self.total_invalid_queries == old(self).total_invalid_queries,
            decreases pending@.len(),
        {
            let x = pending.remove(0);
            assert(x == all[i as int]);
            insert_sorted(&mut sorted, x);
            assert(all.subrange(0, i + 1).drop_last() =~= all.subrange(0, i as int));
            i = i + 1;
            assert(pending@ =~= all.subrange(i as int, total as int));
        }
        assert(all.subrange(0, i as int) =~= all);
        proof {
            lemma_sort_len(all);
        }
        self.rules = sorted;
        assert(self.rules@ == sort_desc(old(self).rules@.push(nn)));
    }

    /// Judges an IMEI (trimmed): fewer than eight octets or non-digits are invalid; otherwise
    /// the first rule (in order) whose range holds its TAC matches, or it defaults to
    /// whitelisted.
    pub fn evaluate_imei(&mut self, imei: &str) -> (r: ImeiRangeVerdict)
        requires
            old(self).total_queries < usize::MAX,
            old(self).total_range_matches < usize::MAX,
            old(self).total_default_matches < usize::MAX,
            old(self).total_invalid_queries < usize::MAX,
        ensures
            final(self).total_queries == old(self).total_queries + 1,
            final(self).rules == old(self).rules,
            ({
                let t = trimmed(imei@);
                if !imei_usable(t) {
                    &&& r matches ImeiRangeVerdict::InvalidImeiFormat { input } && input@ == imei@
                    &&& final(self).total_invalid_queries == old(self).total_invalid_queries + 1
                    &&& final(self).total_range_matches == old(self).total_range_matches
                    &&& final(self).total_default_matches == old(self).total_default_matches
                } else {
                    let tac = dec_value(t, 8);
                    &&& final(self).total_invalid_queries == old(self).total_invalid_queries
                    &&& match first_rule(old(self).rules@, tac as u64) {
                        Some(k) => {
                            let rule = old(self).rules@[k];
                            &&& r matches ImeiRangeVerdict::RangeMatched { imei: i, tac: tc, status, description, priority }
                                && i@ == t && tc == tac && status == rule.status && description@ == rule.description@ && priority == rule.priority
                            &&& final(self).total_range_matches == old(self).total_range_matches + 1
                            &&& final(self).total_default_matches == old(self).total_default_matches
                        },
                        None => {
                            &&& r matches ImeiRangeVerdict::DefaultWhiteListed { imei: i, tac: tc } && i@ == t && tc == tac
                            &&& final(self).total_default_matches == old(self).total_default_matches + 1
                            &&& final(self).total_range_matches == old(self).total_range_matches
                        },
                    }
                }
            }),
    {
        self.total_queries = self.total_queries + 1;
        let clean = trim(imei);
        let ok = all_digit_chars_pub(clean);
        assert(clean.spec_bytes() == encode_utf8(clean@));
        if clean.as_bytes().len() < 8 || !ok {
            self.total_invalid_queries = self.total_invalid_queries + 1;
            return ImeiRangeVerdict::InvalidImeiFormat { input: imei.to_owned() };
        }
        assert(clean.spec_bytes().len() == clean@.len());
        let tac = tac8(clean);
        proof {
            lemma_first_rule(self.rules@, tac);
        }
        let mut i: usize = 0;
        while i < self.rules.len()
            invariant
                i <= self.rules@.len(),
                self.rules == old(self).rules,
                forall|j: int| 0 <= j < i ==> !(#[trigger] self.rules@[j].start_tac <= tac <= self.rules@[j].end_tac),
                match first_rule(self.rules@, tac) {
                    Some(k) => 0 <= k < self.rules@.len() && self.rules@[k].start_tac <= tac <= self.rules@[k].end_tac
                        && forall|j: int| 0 <= j < k ==> !(#[trigger] self.rules@[j].start_tac <= tac <= self.rules@[j].end_tac),
                    None => forall|j: int| 0 <= j < self.rules@.len() ==> !(#[trigger] self.rules@[j].start_tac <= tac <= self.rules@[j].end_tac),
                },
                self.total_queries == old(self).total_queries + 1,
                self.total_range_matches == old(self).total_range_matches,
                self.total_default_matches == old(self).total_default_matches,
                self.total_invalid_queries == old(self).total_invalid_queries,
                old(self).total_range_matches < usize::MAX,
                clean@ == trimmed(imei@),
                imei_usable(clean@),
                tac == dec_value(clean@, 8),
            decreases self.rules@.len() - i,
        {
            let rule = &self.rules[i];
            if tac >= rule.start_tac && tac <= rule.end_tac {
                proof {
                    let k = first_rule(self.rules@, tac);
                    if k is None {
                    } else if k.unwrap() > i {
                    }
                }
                let v = ImeiRangeVerdict::RangeMatched {
                    imei: clean.to_owned(),
                    tac,
                    status: rule.status,
                    description: rule.description.clone(),
                    priority: rule.priority,
                };
                self.total_range_matches = self.total_range_matches + 1;
                return v;
            }
            i = i + 1;
        }
        self.total_default_matches = self.total_default_matches + 1;
        ImeiRangeVerdict::DefaultWhiteListed { imei: clean.to_owned(), tac }
    }

    /// Drops every rule.
    pub fn clear_rules(&mut self)
        ensures
            final(self).rules@.len() == 0,
            final(self).total_queries == old(self).total_queries,
            final(self).total_range_matches == old(self).total_range_matches,
            final(self).total_default_matches == old(self).total_default_matches,
            final(self).total_invalid_queries == old(self).total_invalid_queries,
    {
        self.rules.clear();
    }

    /// Zeroes the counters.
    pub fn reset_stats(&mut self)
        ensures
            final(self).rules == old(self).rules,
            final(self).total_queries == 0,
            final(self).total_range_matches == 0,
            final(self).total_default_matches == 0,
            final(self).total_invalid_queries == 0,
    {
        self.total_queries = 0;
        self.total_range_matches = 0;
        self.total_default_matches = 0;
        self.total_invalid_queries = 0;
    }
}

} // verus!
