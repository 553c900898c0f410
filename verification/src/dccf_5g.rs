//! 5G Data Collection Coordination Function (3GPP TS 29.574 / TS 23.288): consumers
//! subscribe to telemetry of a source NF type, data domain and optional target; the DCCF
//! collects once per such key and fans out to every subscription on it, and tears a
//! collector down when its last subscription goes.
//!
//! Threshold filtering compares measured values, which are floating-point numbers; the
//! library hands out the subscriptions a measurement reaches (`dispatch_targets`) and
//! leaves the comparison to the caller.
use vstd::prelude::*;
use crate::table::StrTable;
use crate::text::{owned, push_char, str_eq, strings_view};

verus! {

/// Where a subscription's data goes.
#[derive(Debug, Clone, PartialEq, Eq)]
pub enum DataDeliveryTarget {
    /// To the consumer's notification callback.
    DirectConsumer { callback_uri: String },
    /// To an ADRF for storage.
    AdrfStorage { adrf_id: String },
}

/// A delivery target taken by its text.
pub enum TargetModel {
    DirectConsumer(Seq<char>),
    AdrfStorage(Seq<char>),
}

impl View for DataDeliveryTarget {
    type V = TargetModel;

    open spec fn view(&self) -> TargetModel {
        match self {
            DataDeliveryTarget::DirectConsumer { callback_uri } => TargetModel::DirectConsumer(callback_uri@),
            DataDeliveryTarget::AdrfStorage { adrf_id } => TargetModel::AdrfStorage(adrf_id@),
        }
    }
}

impl DataDeliveryTarget {
    /// A copy of this target.
    pub fn copy(&self) -> (r: Self)
        ensures
            r@ == self@,
    {
        match self {
            DataDeliveryTarget::DirectConsumer { callback_uri } => DataDeliveryTarget::DirectConsumer {
                callback_uri: callback_uri.clone(),
            },
            DataDeliveryTarget::AdrfStorage { adrf_id } => DataDeliveryTarget::AdrfStorage { adrf_id: adrf_id.clone() },
        }
    }
}

/// Why a request is refused.
#[derive(Debug, Clone, PartialEq, Eq)]
pub enum DccfError {
    SubscriptionNotFound,
    InvalidFilterSpec(&'static str),
}

/// What a subscription collects: a data domain and, optionally, one target (slice, SUPI).
#[derive(Debug, Clone, PartialEq, Eq)]
pub struct CollectionScope {
    pub data_domain: String,
    pub target_id: Option<String>,
}

/// A subscription.
#[derive(Debug, Clone, PartialEq, Eq)]
pub struct DccfSubscription {
    pub sub_id: String,
    pub consumer_id: String,
    pub scope: CollectionScope,
    pub target: DataDeliveryTarget,
}

/// A collector: one source NF type, domain and target, and the subscriptions it serves,
/// in the order they came.
#[derive(Debug, Clone, PartialEq, Eq)]
pub struct SourceCollector {
    pub source_nf: String,
    pub data_domain: String,
    pub target_id: Option<String>,
    pub subscribers: Vec<String>,
}

/// The key of a collector, texts taken as sequences.
pub type CollectorKey = (Seq<char>, Seq<char>, Option<Seq<char>>);

/// An optional text taken as a sequence.
pub open spec fn opt_text(o: Option<String>) -> Option<Seq<char>> {
    match o {
        Some(s) => Some(s@),
        None => None,
    }
}

/// The key of a collector.
pub open spec fn key_of(c: SourceCollector) -> CollectorKey {
    (c.source_nf@, c.data_domain@, opt_text(c.target_id))
}

/// A collector taken by its key and its subscriptions.
pub open spec fn collector_view(c: SourceCollector) -> (CollectorKey, Seq<Seq<char>>) {
    (key_of(c), strings_view(c.subscribers@))
}

/// The collectors taken by their keys and subscriptions.
pub open spec fn collectors_view(cs: Seq<SourceCollector>) -> Seq<(CollectorKey, Seq<Seq<char>>)> {
    cs.map_values(|c: SourceCollector| collector_view(c))
}

/// The position of the first collector with `key`.
pub open spec fn find_key(vs: Seq<(CollectorKey, Seq<Seq<char>>)>, key: CollectorKey) -> Option<int>
    decreases vs.len(),
{
    if vs.len() == 0 {
        None
    } else {
        match find_key(vs.drop_last(), key) {
            Some(i) => Some(i),
            None => if vs.last().0 == key { Some(vs.len() - 1) } else { None },
        }
    }
}

/// The subscriptions that the collector with `key` serves (none where there is none).
pub open spec fn subscribers_of(vs: Seq<(CollectorKey, Seq<Seq<char>>)>, key: CollectorKey) -> Seq<Seq<char>> {
    match find_key(vs, key) {
        Some(i) => vs[i].1,
        None => Seq::empty(),
    }
}

/// The collectors after a subscription `id` on `key`: it joins the collector of that key,
/// or a new collector for it comes last.
pub open spec fn with_subscriber(vs: Seq<(CollectorKey, Seq<Seq<char>>)>, key: CollectorKey, id: Seq<char>) -> Seq<
    (CollectorKey, Seq<Seq<char>>),
> {
    match find_key(vs, key) {
        Some(i) => vs.update(i, (key, vs[i].1.push(id))),
        None => vs.push((key, seq![id])),
    }
}

/// The collectors after subscription `id` goes: it leaves every collector, and collectors
/// left with no subscription go.
pub open spec fn without_subscriber(vs: Seq<(CollectorKey, Seq<Seq<char>>)>, id: Seq<char>) -> Seq<
    (CollectorKey, Seq<Seq<char>>),
> {
    vs.map_values(strip_id(id)).filter(nonempty_collector())
}

/// Whether a subscription is other than `id`.
pub open spec fn not_id(id: Seq<char>) -> spec_fn(Seq<char>) -> bool {
    |s: Seq<char>| s != id
}

/// A collector without subscription `id`.
pub open spec fn strip_id(id: Seq<char>) -> spec_fn((CollectorKey, Seq<Seq<char>>)) -> (CollectorKey, Seq<Seq<char>>) {
    |c: (CollectorKey, Seq<Seq<char>>)| (c.0, c.1.filter(not_id(id)))
}

/// Whether a collector serves some subscription.
pub open spec fn nonempty_collector() -> spec_fn((CollectorKey, Seq<Seq<char>>)) -> bool {
    |c: (CollectorKey, Seq<Seq<char>>)| c.1.len() > 0
}

/// The lowercase hexadecimal digits of `n`, without leading zeros.
pub open spec fn hex_digits(n: nat) -> Seq<char>
    decreases n,
{
    if n < 16 {
        seq![hex_char(n)]
    } else {
        hex_digits(n / 16).push(hex_char(n % 16))
    }
}

pub open spec fn hex_char(d: nat) -> char {
    if d < 10 { (48 + d) as char } else { (87 + d) as char }
}

/// `n` in lowercase hexadecimal, zero-padded to eight digits at least.
pub open spec fn hex8(n: nat) -> Seq<char> {
    let d = hex_digits(n);
    if d.len() < 8 { Seq::new((8 - d.len()) as nat, |i: int| '0') + d } else { d }
}

/// The identifier of the `n`-th subscription.
pub open spec fn subscription_name(n: u64) -> Seq<char> {
    "dccf-sub-"@ + hex8(n as nat)
}

fn hex_digit(d: u64) -> (r: char)
    requires
        d < 16,
    ensures
        r == hex_char(d as nat),
{
    if d < 10 { ((48 + d) as u8) as char } else { ((87 + d) as u8) as char }
}

/// `n` in lowercase hexadecimal, at least eight digits.
fn hex_min8(n: u64) -> (r: String)
    ensures
        r@ == hex8(n as nat),
{
    let mut digits: Vec<char> = Vec::new();
    let mut m: u64 = n;
    while m >= 16
        invariant
            hex_digits(n as nat) == hex_digits(m as nat) + digits@.reverse(),
        decreases m,
    {
        let d = hex_digit(m % 16);
        let ghost before = digits@;
        digits.push(d);
        proof {
            assert(digits@.reverse() =~= seq![d] + before.reverse());
            assert(hex_digits(m as nat) == hex_digits((m / 16) as nat).push(hex_char((m % 16) as nat)));
            assert(hex_digits((m / 16) as nat).push(d) + before.reverse() =~= hex_digits((m / 16) as nat) + (seq![d]
                + before.reverse()));
        }
        m = m / 16;
    }
    let ghost before = digits@;
    let d = hex_digit(m);
    digits.push(d);
    assert(digits@.reverse() =~= seq![d] + before.reverse());
    assert(hex_digits(n as nat) =~= digits@.reverse());
    let mut out = String::new();
    let mut pad: usize = digits.len();
    while pad < 8
        invariant
            digits@.len() <= pad,
            pad <= 8 || pad == digits@.len(),
            out@ == Seq::new((pad - digits@.len()) as nat, |i: int| '0'),
        decreases 8 - pad,
    {
        push_char(&mut out, '0');
        pad = pad + 1;
        assert(out@ =~= Seq::new((pad - digits@.len()) as nat, |i: int| '0'));
    }
    let ghost prefix = out@;
    let mut k: usize = digits.len();
    while k > 0
        invariant
            k <= digits@.len(),
            out@ == prefix + digits@.reverse().take((digits@.len() - k) as int),
        decreases k,
    {
        k = k - 1;
        push_char(&mut out, digits[k]);
        assert(out@ =~= prefix + digits@.reverse().take((digits@.len() - k) as int));
    }
    assert(digits@.reverse().take(digits@.len() as int) =~= digits@.reverse());
    out
}

/// A subscription a measurement reaches: whose it is and where its data goes.
#[derive(Debug, Clone, PartialEq, Eq)]
pub struct DispatchTarget {
    pub sub_id: String,
    pub consumer_id: String,
    pub target: DataDeliveryTarget,
}

/// The DCCF: subscriptions by identifier, and collectors shared by subscriptions with the
/// same source NF type, domain and target.
pub struct DccfEngine {
    pub dccf_id: String,
    pub next_sub_counter: u64,
    pub subscriptions: StrTable<DccfSubscription>,
    pub source_to_subscribers: Vec<SourceCollector>,
}

/// An optional text argument taken as a sequence.
pub open spec fn opt_str(o: Option<&str>) -> Option<Seq<char>> {
    match o {
        Some(s) => Some(s@),
        None => None,
    }
}

/// The targets of the subscriptions named in `ids` that exist, in order.
pub open spec fn targets_of(ids: Seq<Seq<char>>, subs: Map<Seq<char>, DccfSubscription>) -> Seq<
    (Seq<char>, Seq<char>, TargetModel),
>
    decreases ids.len(),
{
    if ids.len() == 0 {
        Seq::empty()
    } else {
        let id = ids.last();
        targets_of(ids.drop_last(), subs) + (if subs.dom().contains(id) {
            seq![(subs[id].sub_id@, subs[id].consumer_id@, subs[id].target@)]
        } else {
            Seq::empty()
        })
    }
}

proof fn lemma_targets_of_concat(a: Seq<Seq<char>>, b: Seq<Seq<char>>, subs: Map<Seq<char>, DccfSubscription>)
    ensures
        targets_of(a + b, subs) == targets_of(a, subs) + targets_of(b, subs),
    decreases b.len(),
{
    if b.len() == 0 {
        assert(a + b =~= a);
        assert(targets_of(a, subs) + targets_of(b, subs) =~= targets_of(a, subs));
    } else {
        lemma_targets_of_concat(a, b.drop_last(), subs);
        assert((a + b).drop_last() =~= a + b.drop_last());
        assert((a + b).last() == b.last());
    }
}

/// Dispatch targets taken by their texts.
pub open spec fn dispatch_view(v: Seq<DispatchTarget>) -> Seq<(Seq<char>, Seq<char>, TargetModel)> {
    v.map_values(|d: DispatchTarget| (d.sub_id@, d.consumer_id@, d.target@))
}

fn opt_text_eq(a: &Option<String>, b: &Option<String>) -> (r: bool)
    ensures
        r == (opt_text(*a) == opt_text(*b)),
{
    match (a, b) {
        (Some(x), Some(y)) => str_eq(x.as_str(), y.as_str()),
        (None, None) => true,
        _ => false,
    }
}

fn copy_opt_text(a: &Option<String>) -> (r: Option<String>)
    ensures
        opt_text(r) == opt_text(*a),
{
    match a {
        Some(x) => Some(x.clone()),
        None => None,
    }
}

/// The position of the first collector with the given key.
fn position_of(cs: &Vec<SourceCollector>, source: &str, domain: &str, target_id: &Option<String>) -> (r: Option<usize>)
    ensures
        match r {
            Some(i) => find_key(collectors_view(cs@), (source@, domain@, opt_text(*target_id))) == Some(i as int),
            None => find_key(collectors_view(cs@), (source@, domain@, opt_text(*target_id))) is None,
        },
        r matches Some(i) ==> i < cs@.len(),
{
    let ghost key = (source@, domain@, opt_text(*target_id));
    let ghost vs = collectors_view(cs@);
    let mut i: usize = 0;
    while i < cs.len()
        invariant
            i <= cs@.len(),
            vs == collectors_view(cs@),
            key == (source@, domain@, opt_text(*target_id)),
            find_key(vs.take(i as int), key) is None,
        decreases cs@.len() - i,
    {
        proof {
            assert(vs.take(i + 1).drop_last() =~= vs.take(i as int));
            assert(vs.take(i + 1).last() == collector_view(cs@[i as int]));
        }
        let c = &cs[i];
        if str_eq(c.source_nf.as_str(), source) && str_eq(c.data_domain.as_str(), domain) && opt_text_eq(
            &c.target_id,
            target_id,
        ) {
            proof {
                lemma_find_key_prefix(vs, key, i as int);
            }
            return Some(i);
        }
        i = i + 1;
    }
    assert(vs.take(i as int) =~= vs);
    None
}

/// A key found is at a position of the sequence, and that collector has it.
proof fn lemma_find_key_found(vs: Seq<(CollectorKey, Seq<Seq<char>>)>, key: CollectorKey)
    ensures
        find_key(vs, key) matches Some(i) ==> 0 <= i < vs.len() && vs[i].0 == key,
    decreases vs.len(),
{
    if vs.len() > 0 {
        lemma_find_key_found(vs.drop_last(), key);
    }
}

/// Where a prefix already holds the key first at its end, the whole sequence does too.
proof fn lemma_find_key_prefix(vs: Seq<(CollectorKey, Seq<Seq<char>>)>, key: CollectorKey, i: int)
    requires
        0 <= i < vs.len(),
        find_key(vs.take(i), key) is None,
        vs[i].0 == key,
    ensures
        find_key(vs, key) == Some(i),
    decreases vs.len() - i,
{
    assert(vs.take(i + 1).drop_last() =~= vs.take(i));
    if i + 1 < vs.len() {
        lemma_find_key_extend(vs, key, i + 1);
    } else {
        assert(vs.take(i + 1) =~= vs);
    }
}

proof fn lemma_find_key_extend(vs: Seq<(CollectorKey, Seq<Seq<char>>)>, key: CollectorKey, k: int)
    requires
        0 < k <= vs.len(),
        find_key(vs.take(k), key) is Some,
    ensures
        find_key(vs, key) == find_key(vs.take(k), key),
    decreases vs.len() - k,
{
    if k < vs.len() {
        assert(vs.take(k + 1).drop_last() =~= vs.take(k));
        lemma_find_key_extend(vs, key, k + 1);
    } else {
        assert(vs.take(k) =~= vs);
    }
}

/// The subscriptions served by the collector with the given key.
fn subscribers_at(cs: &Vec<SourceCollector>, source: &str, domain: &str, target_id: &Option<String>) -> (r: Vec<String>)
    ensures
        strings_view(r@) == subscribers_of(collectors_view(cs@), (source@, domain@, opt_text(*target_id))),
{
    match position_of(cs, source, domain, target_id) {
        Some(i) => {
            assert(collectors_view(cs@)[i as int] == collector_view(cs@[i as int]));
            crate::text::copy_strings(&cs[i].subscribers)
        },
        None => Vec::new(),
    }
}

impl DccfEngine {
    pub fn new(dccf_id: &str) -> (r: Self)
        ensures
            r.subscriptions.wf(),
            r.dccf_id@ == dccf_id@,
            r.next_sub_counter == 1,
            r.subscriptions@ == Map::<Seq<char>, DccfSubscription>::empty(),
            r.source_to_subscribers@.len() == 0,
    {
        DccfEngine {
            dccf_id: owned(dccf_id),
            next_sub_counter: 1,
            subscriptions: StrTable::new(),
            source_to_subscribers: Vec::new(),
        }
    }

    /// Subscribes a consumer: the subscription gets the next identifier
    /// (`dccf-sub-` and the counter in hexadecimal), joins the collector of the source NF
    /// type (upper case), domain and target (see `with_subscriber`), and is kept. An empty
    /// domain is refused, and nothing changes.
    pub fn subscribe(
        &mut self,
        consumer_id: &str,
        source_nf_type: &str,
        scope: CollectionScope,
        target: DataDeliveryTarget,
    ) -> (r: Result<String, DccfError>)
        requires
            old(self).subscriptions.wf(),
            scope.data_domain@.len() > 0 ==> old(self).next_sub_counter < u64::MAX,
        ensures
            final(self).subscriptions.wf(),
            final(self).dccf_id == old(self).dccf_id,
            scope.data_domain@.len() == 0 ==> (r matches Err(DccfError::InvalidFilterSpec(m)) && m@
                == "Data domain cannot be empty"@ && final(self).next_sub_counter == old(self).next_sub_counter
                && final(self).subscriptions == old(self).subscriptions && final(self).source_to_subscribers
                == old(self).source_to_subscribers),
            scope.data_domain@.len() > 0 ==> (r matches Ok(id) && {
                let key = (crate::text::uppercase(source_nf_type@), scope.data_domain@, opt_text(scope.target_id));
                let s = final(self).subscriptions@[id@];
                &&& id@ == subscription_name(old(self).next_sub_counter)
                &&& final(self).next_sub_counter == old(self).next_sub_counter + 1
                &&& collectors_view(final(self).source_to_subscribers@) == with_subscriber(
                    collectors_view(old(self).source_to_subscribers@),
                    key,
                    id@,
                )
                &&& final(self).subscriptions@.dom() == old(self).subscriptions@.dom().insert(id@)
                &&& forall|k: Seq<char>| k != id@ ==> #[trigger] final(self).subscriptions@.get(k)
                    == old(self).subscriptions@.get(k)
                &&& s.sub_id@ == id@
                &&& s.consumer_id@ == consumer_id@
                &&& s.scope.data_domain@ == scope.data_domain@
                &&& opt_text(s.scope.target_id) == opt_text(scope.target_id)
                &&& s.target@ == target@
            }),
    {
        if scope.data_domain.as_str().is_empty() {
            return Err(DccfError::InvalidFilterSpec("Data domain cannot be empty"));
        }
        let mut sub_id = owned("dccf-sub-");
        sub_id.append(hex_min8(self.next_sub_counter).as_str());
        self.next_sub_counter = self.next_sub_counter + 1;
        let source = crate::text::to_uppercase(source_nf_type);
        let ghost key = (source@, scope.data_domain@, opt_text(scope.target_id));
        let ghost vs = collectors_view(self.source_to_subscribers@);
        match position_of(&self.source_to_subscribers, source.as_str(), scope.data_domain.as_str(), &scope.target_id) {
            Some(i) => {
                proof {
                    lemma_find_key_found(vs, key);
                }
                let ghost old_list = self.source_to_subscribers@;
                let mut c = self.source_to_subscribers.remove(i);
                let ghost cs0 = c.subscribers@;
                c.subscribers.push(sub_id.clone());
                assert(strings_view(c.subscribers@) =~= strings_view(cs0).push(sub_id@));
                let ghost cv = collector_view(c);
                self.source_to_subscribers.insert(i, c);
                assert(self.source_to_subscribers@ =~= old_list.update(i as int, c));
                assert(vs[i as int] == collector_view(old_list[i as int]));
                assert(cv == (key, vs[i as int].1.push(sub_id@)));
                assert(collectors_view(self.source_to_subscribers@) =~= vs.update(i as int, (key, vs[i as int].1.push(sub_id@))));
            },
            None => {
                let c = SourceCollector {
                    source_nf: source,
                    data_domain: scope.data_domain.clone(),
                    target_id: copy_opt_text(&scope.target_id),
                    subscribers: vec![sub_id.clone()],
                };
                assert(strings_view(c.subscribers@) =~= seq![sub_id@]);
                self.source_to_subscribers.push(c);
                assert(collectors_view(self.source_to_subscribers@) =~= vs.push((key, seq![sub_id@])));
            },
        }
        let sub = DccfSubscription {
            sub_id: sub_id.clone(),
            consumer_id: owned(consumer_id),
            scope: CollectionScope { data_domain: scope.data_domain.clone(), target_id: copy_opt_text(&scope.target_id) },
            target: target.copy(),
        };
        self.subscriptions.insert(sub_id.clone(), sub);
        assert(self.subscriptions@.dom() =~= old(self).subscriptions@.dom().insert(sub_id@));
        Ok(sub_id)
    }

    /// Ends a subscription: it goes, it leaves every collector, and collectors left with
    /// none go (see `without_subscriber`). An unknown identifier is refused, and nothing
    /// changes.
    pub fn unsubscribe(&mut self, sub_id: &str) -> (r: Result<(), DccfError>)
        requires
            old(self).subscriptions.wf(),
        ensures
            final(self).subscriptions.wf(),
            final(self).dccf_id == old(self).dccf_id,
            final(self).next_sub_counter == old(self).next_sub_counter,
            !old(self).subscriptions@.dom().contains(sub_id@) ==> r == Err::<(), DccfError>(DccfError::SubscriptionNotFound)
                && final(self).subscriptions == old(self).subscriptions && final(self).source_to_subscribers
                == old(self).source_to_subscribers,
            old(self).subscriptions@.dom().contains(sub_id@) ==> r is Ok && final(self).subscriptions@ == old(
                self,
            ).subscriptions@.remove(sub_id@) && collectors_view(final(self).source_to_subscribers@)
                == without_subscriber(collectors_view(old(self).source_to_subscribers@), sub_id@),
    {
        if !self.subscriptions.contains_key(sub_id) {
            return Err(DccfError::SubscriptionNotFound);
        }
        let _ = self.subscriptions.remove(sub_id);
        let ghost vs = collectors_view(self.source_to_subscribers@);
        let ghost strip = strip_id(sub_id@);
        let ghost keep = nonempty_collector();
        let mut kept: Vec<SourceCollector> = Vec::new();
        let mut i: usize = 0;
        while i < self.source_to_subscribers.len()
            invariant
                i <= self.source_to_subscribers@.len(),
                vs == collectors_view(self.source_to_subscribers@),
                strip == strip_id(sub_id@),
                keep == nonempty_collector(),
                collectors_view(kept@) == vs.take(i as int).map_values(strip).filter(keep),
            decreases self.source_to_subscribers@.len() - i,
        {
            let ghost before = kept@;
            let c = &self.source_to_subscribers[i];
            let rest = without_string(&c.subscribers, sub_id);
            proof {
                assert(vs.take(i + 1).map_values(strip) =~= vs.take(i as int).map_values(strip).push(strip(vs[i as int])));
                vs.take(i as int).map_values(strip).lemma_filter_push(strip(vs[i as int]), keep);
                assert(vs[i as int] == collector_view(*c));
                assert(strip(vs[i as int]) == (key_of(*c), strings_view(rest@)));
            }
            if rest.len() > 0 {
                let nc = SourceCollector {
                    source_nf: c.source_nf.clone(),
                    data_domain: c.data_domain.clone(),
                    target_id: copy_opt_text(&c.target_id),
                    subscribers: rest,
                };
                kept.push(nc);
                assert(collector_view(nc) == strip(vs[i as int]));
                assert(collectors_view(kept@) =~= collectors_view(before).push(collector_view(nc)));
            }
            i = i + 1;
            assert(collectors_view(kept@) =~= vs.take(i as int).map_values(strip).filter(keep));
        }
        assert(vs.take(i as int) =~= vs);
        self.source_to_subscribers = kept;
        Ok(())
    }

    /// The subscriptions a measurement of `source_nf_type`, `data_domain` and `target_id`
    /// reaches, before thresholds: those on its exact key, then those on the key without a
    /// target (the same again where the measurement has no target); only subscriptions
    /// that exist, each with its consumer and delivery target.
    pub fn dispatch_targets(&self, source_nf_type: &str, data_domain: &str, target_id: Option<&str>) -> (r: Vec<
        DispatchTarget,
    >)
        requires
            self.subscriptions.wf(),
        ensures
            ({
                let up = crate::text::uppercase(source_nf_type@);
                let vs = collectors_view(self.source_to_subscribers@);
                dispatch_view(r@) == targets_of(
                    subscribers_of(vs, (up, data_domain@, opt_str(target_id))) + subscribers_of(
                        vs,
                        (up, data_domain@, None),
                    ),
                    self.subscriptions@,
                )
            }),
    {
        let up = crate::text::to_uppercase(source_nf_type);
        let domain = owned(data_domain);
        let exact: Option<String> = match target_id {
            Some(t) => Some(owned(t)),
            None => None,
        };
        assert(opt_text(exact) == opt_str(target_id));
        let first = subscribers_at(&self.source_to_subscribers, up.as_str(), domain.as_str(), &exact);
        let second = subscribers_at(&self.source_to_subscribers, up.as_str(), domain.as_str(), &None);
        let mut out: Vec<DispatchTarget> = Vec::new();
        assert(dispatch_view(out@) =~= Seq::<(Seq<char>, Seq<char>, TargetModel)>::empty());
        self.push_targets(&first, &mut out);
        self.push_targets(&second, &mut out);
        proof {
            lemma_targets_of_concat(strings_view(first@), strings_view(second@), self.subscriptions@);
        }
        out
    }

    /// Appends the targets of the subscriptions named in `ids` that exist.
    fn push_targets(&self, ids: &Vec<String>, out: &mut Vec<DispatchTarget>)
        requires
            self.subscriptions.wf(),
        ensures
            dispatch_view(final(out)@) == dispatch_view(old(out)@) + targets_of(strings_view(ids@), self.subscriptions@),
    {
        let ghost o0 = dispatch_view(out@);
        let ghost sv = strings_view(ids@);
        let mut i: usize = 0;
        while i < ids.len()
            invariant
                sv == strings_view(ids@),
                self.subscriptions.wf(),
                i <= ids@.len(),
                dispatch_view(out@) == o0 + targets_of(sv.take(i as int), self.subscriptions@),
            decreases ids@.len() - i,
        {
            proof {
                assert(sv.take(i + 1).drop_last() =~= sv.take(i as int));
                assert(sv.take(i + 1).last() == ids@[i as int]@);
            }
            let ghost before = out@;
            match self.subscriptions.get(ids[i].as_str()) {
                Some(sub) => {
                    let d = DispatchTarget {
                        sub_id: sub.sub_id.clone(),
                        consumer_id: sub.consumer_id.clone(),
                        target: sub.target.copy(),
                    };
                    out.push(d);
                    assert(dispatch_view(out@) =~= dispatch_view(before).push((d.sub_id@, d.consumer_id@, d.target@)));
                },
                None => {},
            }
            i = i + 1;
            assert(dispatch_view(out@) =~= o0 + targets_of(sv.take(i as int), self.subscriptions@));
        }
        assert(sv.take(i as int) =~= sv);
    }

    /// The number of collectors running.
    pub fn active_source_collectors_count(&self) -> (r: usize)
        ensures
            r == self.source_to_subscribers@.len(),
    {
        self.source_to_subscribers.len()
    }
}

/// The strings other than `s`, in order.
fn without_string(list: &Vec<String>, s: &str) -> (r: Vec<String>)
    ensures
        strings_view(r@) == strings_view(list@).filter(|x: Seq<char>| x != s@),
{
    let ghost p = |x: Seq<char>| x != s@;
    let ghost sv = strings_view(list@);
    let mut out: Vec<String> = Vec::new();
    let mut i: usize = 0;
    while i < list.len()
        invariant
            i <= list@.len(),
            sv == strings_view(list@),
            p == (|x: Seq<char>| x != s@),
            strings_view(out@) == sv.take(i as int).filter(p),
        decreases list@.len() - i,
    {
        let ghost before = out@;
        proof {
            reveal(Seq::filter);
            assert(sv.take(i + 1).drop_last() =~= sv.take(i as int));
            assert(sv.take(i + 1).last() == list@[i as int]@);
        }
        if !str_eq(list[i].as_str(), s) {
            out.push(list[i].clone());
            assert(strings_view(out@) =~= strings_view(before).push(list@[i as int]@));
        }
        i = i + 1;
    }
    assert(sv.take(i as int) =~= sv);
    out
}

/// Collection is shared: a subscription on a key that has a collector joins it, so the
/// number of collectors grows only for a new key, by one.
pub proof fn lemma_collectors_shared(vs: Seq<(CollectorKey, Seq<Seq<char>>)>, key: CollectorKey, id: Seq<char>)
    ensures
        with_subscriber(vs, key, id).len() == vs.len() + (if find_key(vs, key) is Some { 0int } else { 1int }),
        subscribers_of(with_subscriber(vs, key, id), key) == subscribers_of(vs, key).push(id),
{
    lemma_find_key_found(vs, key);
    let w = with_subscriber(vs, key, id);
    match find_key(vs, key) {
        Some(i) => {
            lemma_find_key_same_prefix(vs, w, key, i);
        },
        None => {
            assert(w.drop_last() =~= vs);
        },
    }
}

/// Changing a collector's subscriptions, not its key, leaves where keys are found.
proof fn lemma_find_key_same_prefix(
    vs: Seq<(CollectorKey, Seq<Seq<char>>)>,
    ws: Seq<(CollectorKey, Seq<Seq<char>>)>,
    key: CollectorKey,
    i: int,
)
    requires
        vs.len() == ws.len(),
        forall|j: int| 0 <= j < vs.len() ==> #[trigger] ws[j].0 == vs[j].0,
    ensures
        find_key(ws, key) == find_key(vs, key),
    decreases vs.len(),
{
    if vs.len() > 0 {
        lemma_find_key_same_prefix(vs.drop_last(), ws.drop_last(), key, i);
        assert(ws.last().0 == vs.last().0);
    }
}

/// A collector is torn down with its last subscription: once a subscription goes, no
/// collector serves it and every collector left serves some subscription.
pub proof fn lemma_collectors_torn_down(vs: Seq<(CollectorKey, Seq<Seq<char>>)>, id: Seq<char>)
    ensures
        forall|j: int| 0 <= j < without_subscriber(vs, id).len() ==> {
            &&& (#[trigger] without_subscriber(vs, id)[j]).1.len() > 0
            &&& !without_subscriber(vs, id)[j].1.contains(id)
        },
{
    let strip = strip_id(id);
    let keep = nonempty_collector();
    let m = vs.map_values(strip);
    m.filter_lemma(keep);
    assert forall|j: int| 0 <= j < without_subscriber(vs, id).len() implies !(#[trigger] without_subscriber(vs, id)[j]).1.contains(id) by {
        let c = without_subscriber(vs, id)[j];
        assert(m.filter(keep).contains(c));
        m.lemma_filter_contains_rev(keep, c);
        let k = choose|k: int| 0 <= k < m.len() && m[k] == c;
        let inner = vs[k].1.filter(not_id(id));
        assert(c.1 == inner);
        if inner.contains(id) {
            let q = choose|q: int| 0 <= q < inner.len() && inner[q] == id;
            vs[k].1.filter_lemma(not_id(id));
            assert(inner[q] != id);
        }
    }
}

} // verus!
