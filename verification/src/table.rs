//! Tables keyed by strings or by octet strings: the subscriber, session, device and
//! binding registries of the engines.
use vstd::prelude::*;

verus! {

/// Whether no key occurs twice.
pub open spec fn unique_keys<K, V>(s: Seq<(K, V)>) -> bool {
    forall|i: int, j: int| 0 <= i < j < s.len() ==> #[trigger] s[i].0 != #[trigger] s[j].0
}

/// Whether `k` is the key of some entry.
pub open spec fn has_key<K, V>(s: Seq<(K, V)>, k: K) -> bool {
    exists|i: int| 0 <= i < s.len() && #[trigger] s[i].0 == k
}

/// The map that the entries describe.
pub open spec fn pairs_map<K, V>(s: Seq<(K, V)>) -> Map<K, V> {
    Map::new(
        |k: K| has_key(s, k),
        |k: K| s[choose|i: int| 0 <= i < s.len() && #[trigger] s[i].0 == k].1,
    )
}

/// The value stored under `k`, if any.
pub open spec fn map_get<K, V>(m: Map<K, V>, k: K) -> Option<V> {
    if m.dom().contains(k) {
        Some(m[k])
    } else {
        None
    }
}

/// Entries with distinct keys describe a map with as many keys as there are entries.
pub proof fn lemma_pairs_map_len<K, V>(s: Seq<(K, V)>)
    requires
        unique_keys(s),
    ensures
        pairs_map(s).dom().finite(),
        pairs_map(s).dom().len() == s.len(),
    decreases s.len(),
{
    if s.len() == 0 {
        assert(pairs_map(s).dom() =~= Set::<K>::empty());
    } else {
        let t = s.drop_last();
        let k = s.last().0;
        assert(unique_keys(t)) by {
            assert forall|i: int, j: int| 0 <= i < j < t.len() implies #[trigger] t[i].0 != #[trigger] t[j].0 by {
                assert(t[i] == s[i] && t[j] == s[j]);
            }
        }
        lemma_pairs_map_len(t);
        assert(pairs_map(s).dom() =~= pairs_map(t).dom().insert(k)) by {
            assert forall|x: K| #[trigger] pairs_map(s).dom().contains(x) <==> pairs_map(t).dom().insert(k).contains(x) by {
                if has_key(s, x) {
                    let i = choose|i: int| 0 <= i < s.len() && #[trigger] s[i].0 == x;
                    if i < t.len() {
                        assert(t[i] == s[i]);
                    }
                }
                if has_key(t, x) {
                    let i = choose|i: int| 0 <= i < t.len() && #[trigger] t[i].0 == x;
                    assert(s[i] == t[i]);
                }
                if x == k {
                    assert(s[s.len() - 1].0 == k);
                }
            }
        }
        assert(!pairs_map(t).dom().contains(k)) by {
            if has_key(t, k) {
                let i = choose|i: int| 0 <= i < t.len() && #[trigger] t[i].0 == k;
                assert(s[i] == t[i]);
                assert(s[i].0 != s[s.len() - 1].0);
            }
        }
    }
}

/// The number of keys whose value satisfies `p`.
pub open spec fn count_matching<K, V>(m: Map<K, V>, p: spec_fn(V) -> bool) -> nat {
    m.dom().filter(|k: K| p(m[k])).len()
}

/// The number of entries whose value satisfies `p`.
pub open spec fn count_entries<K, V>(s: Seq<(K, V)>, p: spec_fn(V) -> bool) -> nat
    decreases s.len(),
{
    if s.len() == 0 {
        0
    } else {
        count_entries(s.drop_last(), p) + (if p(s.last().1) { 1nat } else { 0nat })
    }
}

/// The map of entries with distinct keys is that of all but the last, with the last added.
pub proof fn lemma_pairs_map_push<K, V>(s: Seq<(K, V)>)
    requires
        unique_keys(s),
        s.len() > 0,
    ensures
        !pairs_map(s.drop_last()).dom().contains(s.last().0),
        pairs_map(s) == pairs_map(s.drop_last()).insert(s.last().0, s.last().1),
{
    let t = s.drop_last();
    let n = s.len() - 1;
    assert(unique_keys(t)) by {
        assert forall|i: int, j: int| 0 <= i < j < t.len() implies #[trigger] t[i].0 != #[trigger] t[j].0 by {
            assert(t[i] == s[i] && t[j] == s[j]);
        }
    }
    assert(!has_key(t, s.last().0)) by {
        if has_key(t, s.last().0) {
            let i = choose|i: int| 0 <= i < t.len() && #[trigger] t[i].0 == s.last().0;
            assert(s[i] == t[i]);
            assert(s[i].0 != s[n].0);
        }
    }
    lemma_pairs_map_at(s, n);
    let m = pairs_map(t).insert(s.last().0, s.last().1);
    assert forall|x: K| #[trigger] pairs_map(s).dom().contains(x) <==> m.dom().contains(x) by {
        if has_key(s, x) && x != s.last().0 {
            let i = choose|i: int| 0 <= i < s.len() && #[trigger] s[i].0 == x;
            assert(i < n);
            assert(t[i] == s[i]);
        }
        if has_key(t, x) {
            let i = choose|i: int| 0 <= i < t.len() && #[trigger] t[i].0 == x;
            assert(s[i] == t[i]);
        }
    }
    assert forall|x: K| #[trigger] pairs_map(s).dom().contains(x) implies pairs_map(s)[x] == m[x] by {
        if x != s.last().0 {
            let i = choose|i: int| 0 <= i < t.len() && #[trigger] t[i].0 == x;
            assert(s[i] == t[i]);
            lemma_pairs_map_at(t, i);
            lemma_pairs_map_at(s, i);
        }
    }
    assert(pairs_map(s) =~= m);
}

/// Counting the entries of a table counts the keys of its map.
pub proof fn lemma_count_entries<K, V>(s: Seq<(K, V)>, p: spec_fn(V) -> bool)
    requires
        unique_keys(s),
    ensures
        count_entries(s, p) == count_matching(pairs_map(s), p),
    decreases s.len(),
{
    let m = pairs_map(s);
    if s.len() == 0 {
        assert(m.dom().filter(|k: K| p(m[k])) =~= Set::<K>::empty());
    } else {
        let t = s.drop_last();
        assert(unique_keys(t)) by {
            assert forall|i: int, j: int| 0 <= i < j < t.len() implies #[trigger] t[i].0 != #[trigger] t[j].0 by {
                assert(t[i] == s[i] && t[j] == s[j]);
            }
        }
        lemma_count_entries(t, p);
        lemma_pairs_map_push(s);
        lemma_pairs_map_len(t);
        let mt = pairs_map(t);
        let k = s.last().0;
        let ft = mt.dom().filter(|x: K| p(mt[x]));
        let fs = m.dom().filter(|x: K| p(m[x]));
        mt.dom().lemma_len_filter(|x: K| p(mt[x]));
        if p(s.last().1) {
            assert(fs =~= ft.insert(k));
        } else {
            assert(fs =~= ft);
        }
    }
}

/// A map from strings to values, kept as a list of entries with distinct keys.
#[derive(Debug, Clone)]
pub struct StrTable<V> {
    entries: Vec<(String, V)>,
}

impl<V> View for StrTable<V> {
    type V = Map<Seq<char>, V>;

    open spec fn view(&self) -> Map<Seq<char>, V> {
        pairs_map(self.pairs())
    }
}

pub proof fn lemma_pairs_map_at<K, V>(s: Seq<(K, V)>, i: int)
    requires
        unique_keys(s),
        0 <= i < s.len(),
    ensures
        pairs_map(s).dom().contains(s[i].0),
        pairs_map(s)[s[i].0] == s[i].1,
{
    assert(has_key(s, s[i].0));
    let j = choose|j: int| 0 <= j < s.len() && #[trigger] s[j].0 == s[i].0;
    if j != i {
        if j < i {
            assert(s[j].0 != s[i].0);
        } else {
            assert(s[i].0 != s[j].0);
        }
    }
}

impl<V> StrTable<V> {
    /// The entries, each key taken by its characters.
    pub closed spec fn pairs(&self) -> Seq<(Seq<char>, V)> {
        self.entries@.map_values(|e: (String, V)| (e.0@, e.1))
    }

    /// Every key occurs once.
    pub open spec fn wf(&self) -> bool {
        unique_keys(self.pairs())
    }

    /// The number of keys is the number of entries.
    pub proof fn lemma_len(&self)
        requires
            self.wf(),
        ensures
            self@.dom().finite(),
            self@.dom().len() == self.pairs().len(),
    {
        lemma_pairs_map_len(self.pairs());
    }

    /// Counting the entries counts the keys.
    pub proof fn lemma_count(&self, p: spec_fn(V) -> bool)
        requires
            self.wf(),
        ensures
            count_entries(self.pairs(), p) == count_matching(self@, p),
    {
        lemma_count_entries(self.pairs(), p);
    }

    /// An empty table.
    pub fn new() -> (r: StrTable<V>)
        ensures
            r.wf(),
            r.pairs() == Seq::<(Seq<char>, V)>::empty(),
            r@ == Map::<Seq<char>, V>::empty(),
    {
        let r = StrTable { entries: Vec::new() };
        assert(r.pairs() =~= Seq::<(Seq<char>, V)>::empty());
        assert(r@ =~= Map::<Seq<char>, V>::empty());
        r
    }

    /// The number of entries.
    pub fn len(&self) -> (r: usize)
        ensures
            r == self.pairs().len(),
    {
        self.entries.len()
    }

    /// The key of entry `i`.
    pub fn key_at(&self, i: usize) -> (r: &String)
        requires
            i < self.pairs().len(),
        ensures
            r@ == self.pairs()[i as int].0,
    {
        &self.entries[i].0
    }

    /// The value of entry `i`.
    pub fn value_at(&self, i: usize) -> (r: &V)
        requires
            i < self.pairs().len(),
        ensures
            *r == self.pairs()[i as int].1,
    {
        &self.entries[i].1
    }

    /// The position of the entry with key `key`.
    pub fn find(&self, key: &str) -> (r: Option<usize>)
        requires
            self.wf(),
        ensures
            match r {
                Some(i) => i < self.pairs().len() && self.pairs()[i as int].0 == key@,
                None => !has_key(self.pairs(), key@),
            },
            r is Some <==> self@.dom().contains(key@),
    {
        let k = key.to_owned();
        let mut i: usize = 0;
        while i < self.entries.len()
            invariant
                i <= self.entries@.len(),
                k@ == key@,
                forall|j: int| 0 <= j < i ==> #[trigger] self.pairs()[j].0 != key@,
            decreases self.entries@.len() - i,
        {
            if self.entries[i].0 == k {
                assert(self.pairs()[i as int].0 == key@);
                return Some(i);
            }
            assert(self.pairs()[i as int].0 != key@);
            i = i + 1;
        }
        proof {
            if has_key(self.pairs(), key@) {
                let j = choose|j: int| 0 <= j < self.pairs().len() && #[trigger] self.pairs()[j].0 == key@;
                assert(self.pairs()[j].0 != key@);
            }
        }
        None
    }

    /// Whether `key` has an entry.
    pub fn contains_key(&self, key: &str) -> (r: bool)
        requires
            self.wf(),
        ensures
            r == self@.dom().contains(key@),
    {
        self.find(key).is_some()
    }

    /// The value stored under `key`.
    pub fn get(&self, key: &str) -> (r: Option<&V>)
        requires
            self.wf(),
        ensures
            match r {
                Some(v) => self@.dom().contains(key@) && *v == self@[key@],
                None => !self@.dom().contains(key@),
            },
    {
        match self.find(key) {
            Some(i) => {
                proof {
                    lemma_pairs_map_at(self.pairs(), i as int);
                }
                Some(&self.entries[i].1)
            },
            None => None,
        }
    }

    /// Removes the entry under `key` and returns its value.
    pub fn remove(&mut self, key: &str) -> (r: Option<V>)
        requires
            old(self).wf(),
        ensures
            final(self).wf(),
            final(self)@ == old(self)@.remove(key@),
            r == map_get(old(self)@, key@),
            final(self).pairs().len() + (if r is Some { 1int } else { 0int }) == old(self).pairs().len(),
    {
        match self.find(key) {
            Some(i) => {
                let ghost s0 = self.pairs();
                proof {
                    lemma_pairs_map_at(s0, i as int);
                }
                let e = self.entries.remove(i);
                let ghost s1 = self.pairs();
                assert(s1 =~= s0.remove(i as int));
                assert(unique_keys(s1)) by {
                    assert forall|a: int, b: int| 0 <= a < b < s1.len() implies #[trigger] s1[a].0
                        != #[trigger] s1[b].0 by {
                        let a0 = if a < i { a } else { a + 1 };
                        let b0 = if b < i { b } else { b + 1 };
                        assert(s1[a] == s0[a0]);
                        assert(s1[b] == s0[b0]);
                        assert(s0[a0].0 != s0[b0].0);
                    }
                }
                assert(self@ =~= old(self)@.remove(key@)) by {
                    assert forall|k: Seq<char>| #[trigger] self@.dom().contains(k) <==> old(self)@.remove(key@).dom().contains(k) by {
                        if has_key(s1, k) {
                            let j = choose|j: int| 0 <= j < s1.len() && #[trigger] s1[j].0 == k;
                            let j0 = if j < i { j } else { j + 1 };
                            assert(s0[j0] == s1[j]);
                            assert(has_key(s0, k));
                            if k == key@ {
                                assert(s0[j0].0 == s0[i as int].0);
                                if j0 < i { assert(s0[j0].0 != s0[i as int].0); } else { assert(s0[i as int].0 != s0[j0].0); }
                            }
                        }
                        if has_key(s0, k) && k != key@ {
                            let j0 = choose|j: int| 0 <= j < s0.len() && #[trigger] s0[j].0 == k;
                            assert(j0 != i);
                            let j = if j0 < i { j0 } else { j0 - 1 };
                            assert(s1[j] == s0[j0]);
                            assert(has_key(s1, k));
                        }
                    }
                    assert forall|k: Seq<char>| #[trigger] self@.dom().contains(k) implies self@[k] == old(self)@.remove(key@)[k] by {
                        let j = choose|j: int| 0 <= j < s1.len() && #[trigger] s1[j].0 == k;
                        let j0 = if j < i { j } else { j + 1 };
                        assert(s0[j0] == s1[j]);
                        lemma_pairs_map_at(s1, j);
                        lemma_pairs_map_at(s0, j0);
                    }
                }
                Some(e.1)
            },
            None => {
                assert(self@ =~= old(self)@.remove(key@));
                None
            },
        }
    }

    /// Stores `value` under `key`, in place of any value there before.
    pub fn insert(&mut self, key: String, value: V)
        requires
            old(self).wf(),
        ensures
            final(self).wf(),
            final(self)@ == old(self)@.insert(key@, value),
            final(self).pairs().len() == old(self).pairs().len() + (if old(self)@.dom().contains(key@) { 0int } else { 1int }),
    {
        let ghost k = key@;
        let ghost v = value;
        let had = self.remove(key.as_str());
        let ghost s0 = self.pairs();
        assert(!has_key(s0, k)) by {
            assert(!self@.dom().contains(k));
        }
        self.entries.push((key, value));
        let ghost s1 = self.pairs();
        assert(s1 =~= s0.push((k, v)));
        assert(unique_keys(s1)) by {
            assert forall|a: int, b: int| 0 <= a < b < s1.len() implies #[trigger] s1[a].0 != #[trigger] s1[b].0 by {
                if b == s0.len() {
                    assert(s1[a] == s0[a]);
                    if s0[a].0 == k {
                        assert(has_key(s0, k));
                    }
                } else {
                    assert(s1[a] == s0[a]);
                    assert(s1[b] == s0[b]);
                }
            }
        }
        let ghost mid = pairs_map(s0);
        assert(self@ =~= old(self)@.insert(k, v)) by {
            assert forall|x: Seq<char>| #[trigger] self@.dom().contains(x) <==> old(self)@.insert(k, v).dom().contains(x) by {
                if has_key(s1, x) {
                    let j = choose|j: int| 0 <= j < s1.len() && #[trigger] s1[j].0 == x;
                    if j < s0.len() {
                        assert(s1[j] == s0[j]);
                        assert(has_key(s0, x));
                        assert(mid.dom().contains(x));
                    }
                }
                if x == k {
                    assert(s1[s0.len() as int].0 == k);
                } else if old(self)@.dom().contains(x) {
                    assert(mid.dom().contains(x));
                    let j = choose|j: int| 0 <= j < s0.len() && #[trigger] s0[j].0 == x;
                    assert(s1[j] == s0[j]);
                }
            }
            assert forall|x: Seq<char>| #[trigger] self@.dom().contains(x) implies self@[x] == old(self)@.insert(k, v)[x] by {
                let j = choose|j: int| 0 <= j < s1.len() && #[trigger] s1[j].0 == x;
                lemma_pairs_map_at(s1, j);
                if j < s0.len() {
                    assert(s1[j] == s0[j]);
                    lemma_pairs_map_at(s0, j);
                    assert(x != k);
                } else {
                    assert(x == k);
                }
            }
        }
    }
}

/// Whether two octet strings are equal.
pub fn bytes_eq(a: &[u8], b: &[u8]) -> (r: bool)
    ensures
        r == (a@ == b@),
{
    if a.len() != b.len() {
        return false;
    }
    let mut i: usize = 0;
    while i < a.len()
        invariant
            i <= a@.len(),
            a@.len() == b@.len(),
            forall|j: int| 0 <= j < i ==> a@[j] == b@[j],
        decreases a@.len() - i,
    {
        if a[i] != b[i] {
            return false;
        }
        i = i + 1;
    }
    assert(a@ =~= b@);
    true
}

/// A map from octet strings to values, kept as a list of entries with distinct keys.
#[derive(Debug, Clone)]
pub struct BytesTable<V> {
    entries: Vec<(Vec<u8>, V)>,
}

impl<V> View for BytesTable<V> {
    type V = Map<Seq<u8>, V>;

    open spec fn view(&self) -> Map<Seq<u8>, V> {
        pairs_map(self.pairs())
    }
}

impl<V> BytesTable<V> {
    /// The entries, each key taken by its octets.
    pub closed spec fn pairs(&self) -> Seq<(Seq<u8>, V)> {
        self.entries@.map_values(|e: (Vec<u8>, V)| (e.0@, e.1))
    }

    /// Every key occurs once.
    pub open spec fn wf(&self) -> bool {
        unique_keys(self.pairs())
    }

    /// An empty table.
    pub fn new() -> (r: BytesTable<V>)
        ensures
            r.wf(),
            r.pairs() == Seq::<(Seq<u8>, V)>::empty(),
            r@ == Map::<Seq<u8>, V>::empty(),
    {
        let r = BytesTable { entries: Vec::new() };
        assert(r.pairs() =~= Seq::<(Seq<u8>, V)>::empty());
        assert(r@ =~= Map::<Seq<u8>, V>::empty());
        r
    }

    /// The number of entries.
    pub fn len(&self) -> (r: usize)
        ensures
            r == self.pairs().len(),
    {
        self.entries.len()
    }

    /// The key of entry `i`.
    pub fn key_at(&self, i: usize) -> (r: &Vec<u8>)
        requires
            i < self.pairs().len(),
        ensures
            r@ == self.pairs()[i as int].0,
    {
        &self.entries[i].0
    }

    /// The value of entry `i`.
    pub fn value_at(&self, i: usize) -> (r: &V)
        requires
            i < self.pairs().len(),
        ensures
            *r == self.pairs()[i as int].1,
    {
        &self.entries[i].1
    }

    /// The position of the entry with key `key`.
    pub fn find(&self, key: &[u8]) -> (r: Option<usize>)
        requires
            self.wf(),
        ensures
            match r {
                Some(i) => i < self.pairs().len() && self.pairs()[i as int].0 == key@,
                None => !has_key(self.pairs(), key@),
            },
            r is Some <==> self@.dom().contains(key@),
    {
        
        let mut i: usize = 0;
        while i < self.entries.len()
            invariant
                i <= self.entries@.len(),
                forall|j: int| 0 <= j < i ==> #[trigger] self.pairs()[j].0 != key@,
            decreases self.entries@.len() - i,
        {
            if bytes_eq(self.entries[i].0.as_slice(), key) {
                assert(self.pairs()[i as int].0 == key@);
                return Some(i);
            }
            assert(self.pairs()[i as int].0 != key@);
            i = i + 1;
        }
        proof {
            if has_key(self.pairs(), key@) {
                let j = choose|j: int| 0 <= j < self.pairs().len() && #[trigger] self.pairs()[j].0 == key@;
                assert(self.pairs()[j].0 != key@);
            }
        }
        None
    }

    /// Whether `key` has an entry.
    pub fn contains_key(&self, key: &[u8]) -> (r: bool)
        requires
            self.wf(),
        ensures
            r == self@.dom().contains(key@),
    {
        self.find(key).is_some()
    }

    /// The value stored under `key`.
    pub fn get(&self, key: &[u8]) -> (r: Option<&V>)
        requires
            self.wf(),
        ensures
            match r {
                Some(v) => self@.dom().contains(key@) && *v == self@[key@],
                None => !self@.dom().contains(key@),
            },
    {
        match self.find(key) {
            Some(i) => {
                proof {
                    lemma_pairs_map_at(self.pairs(), i as int);
                }
                Some(&self.entries[i].1)
            },
            None => None,
        }
    }

    /// Removes the entry under `key` and returns its value.
    pub fn remove(&mut self, key: &[u8]) -> (r: Option<V>)
        requires
            old(self).wf(),
        ensures
            final(self).wf(),
            final(self)@ == old(self)@.remove(key@),
            r == map_get(old(self)@, key@),
            final(self).pairs().len() + (if r is Some { 1int } else { 0int }) == old(self).pairs().len(),
    {
        match self.find(key) {
            Some(i) => {
                let ghost s0 = self.pairs();
                proof {
                    lemma_pairs_map_at(s0, i as int);
                }
                let e = self.entries.remove(i);
                let ghost s1 = self.pairs();
                assert(s1 =~= s0.remove(i as int));
                assert(unique_keys(s1)) by {
                    assert forall|a: int, b: int| 0 <= a < b < s1.len() implies #[trigger] s1[a].0
                        != #[trigger] s1[b].0 by {
                        let a0 = if a < i { a } else { a + 1 };
                        let b0 = if b < i { b } else { b + 1 };
                        assert(s1[a] == s0[a0]);
                        assert(s1[b] == s0[b0]);
                        assert(s0[a0].0 != s0[b0].0);
                    }
                }
                assert(self@ =~= old(self)@.remove(key@)) by {
                    assert forall|k: Seq<u8>| #[trigger] self@.dom().contains(k) <==> old(self)@.remove(key@).dom().contains(k) by {
                        if has_key(s1, k) {
                            let j = choose|j: int| 0 <= j < s1.len() && #[trigger] s1[j].0 == k;
                            let j0 = if j < i { j } else { j + 1 };
                            assert(s0[j0] == s1[j]);
                            assert(has_key(s0, k));
                            if k == key@ {
                                assert(s0[j0].0 == s0[i as int].0);
                                if j0 < i { assert(s0[j0].0 != s0[i as int].0); } else { assert(s0[i as int].0 != s0[j0].0); }
                            }
                        }
                        if has_key(s0, k) && k != key@ {
                            let j0 = choose|j: int| 0 <= j < s0.len() && #[trigger] s0[j].0 == k;
                            assert(j0 != i);
                            let j = if j0 < i { j0 } else { j0 - 1 };
                            assert(s1[j] == s0[j0]);
                            assert(has_key(s1, k));
                        }
                    }
                    assert forall|k: Seq<u8>| #[trigger] self@.dom().contains(k) implies self@[k] == old(self)@.remove(key@)[k] by {
                        let j = choose|j: int| 0 <= j < s1.len() && #[trigger] s1[j].0 == k;
                        let j0 = if j < i { j } else { j + 1 };
                        assert(s0[j0] == s1[j]);
                        lemma_pairs_map_at(s1, j);
                        lemma_pairs_map_at(s0, j0);
                    }
                }
                Some(e.1)
            },
            None => {
                assert(self@ =~= old(self)@.remove(key@));
                None
            },
        }
    }

    /// Stores `value` under `key`, in place of any value there before.
    pub fn insert(&mut self, key: Vec<u8>, value: V)
        requires
            old(self).wf(),
        ensures
            final(self).wf(),
            final(self)@ == old(self)@.insert(key@, value),
            final(self).pairs().len() == old(self).pairs().len() + (if old(self)@.dom().contains(key@) { 0int } else { 1int }),
    {
        let ghost k = key@;
        let ghost v = value;
        let had = self.remove(key.as_slice());
        let ghost s0 = self.pairs();
        assert(!has_key(s0, k)) by {
            assert(!self@.dom().contains(k));
        }
        self.entries.push((key, value));
        let ghost s1 = self.pairs();
        assert(s1 =~= s0.push((k, v)));
        assert(unique_keys(s1)) by {
            assert forall|a: int, b: int| 0 <= a < b < s1.len() implies #[trigger] s1[a].0 != #[trigger] s1[b].0 by {
                if b == s0.len() {
                    assert(s1[a] == s0[a]);
                    if s0[a].0 == k {
                        assert(has_key(s0, k));
                    }
                } else {
                    assert(s1[a] == s0[a]);
                    assert(s1[b] == s0[b]);
                }
            }
        }
        let ghost mid = pairs_map(s0);
        assert(self@ =~= old(self)@.insert(k, v)) by {
            assert forall|x: Seq<u8>| #[trigger] self@.dom().contains(x) <==> old(self)@.insert(k, v).dom().contains(x) by {
                if has_key(s1, x) {
                    let j = choose|j: int| 0 <= j < s1.len() && #[trigger] s1[j].0 == x;
                    if j < s0.len() {
                        assert(s1[j] == s0[j]);
                        assert(has_key(s0, x));
                        assert(mid.dom().contains(x));
                    }
                }
                if x == k {
                    assert(s1[s0.len() as int].0 == k);
                } else if old(self)@.dom().contains(x) {
                    assert(mid.dom().contains(x));
                    let j = choose|j: int| 0 <= j < s0.len() && #[trigger] s0[j].0 == x;
                    assert(s1[j] == s0[j]);
                }
            }
            assert forall|x: Seq<u8>| #[trigger] self@.dom().contains(x) implies self@[x] == old(self)@.insert(k, v)[x] by {
                let j = choose|j: int| 0 <= j < s1.len() && #[trigger] s1[j].0 == x;
                lemma_pairs_map_at(s1, j);
                if j < s0.len() {
                    assert(s1[j] == s0[j]);
                    lemma_pairs_map_at(s0, j);
                    assert(x != k);
                } else {
                    assert(x == k);
                }
            }
        }
    }
}

} // verus!
