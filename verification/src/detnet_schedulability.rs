//! DetNet schedulability (RFC 9024 / RFC 8938 / IEEE 802.1Qbv): the integer side of
//! admission control. Per-hop delay bounds in nanoseconds, the end-to-end latency and
//! jitter verdict, and the ledger of reserved bandwidth and burst backlog per node that
//! admission commits and release gives back.
//!
//! Utilization and over-provisioning are ratios kept as floating-point numbers; the
//! caller checks them hop by hop and uses these functions for everything else.
use vstd::prelude::*;
use std::collections::HashMap;

verus! {

broadcast use vstd::std_specs::hash::group_hash_axioms;

/// A DetNet flow's traffic specification.
#[derive(Debug, Clone, Copy, PartialEq, Eq, Structural)]
pub struct DetNetFlowSpec {
    pub flow_id: u32,
    pub traffic_class: u8,
    pub peak_data_rate_bps: u64,
    pub max_payload_bytes: u32,
    pub max_burst_bytes: u32,
    pub max_tolerable_latency_ns: u64,
    pub max_tolerable_jitter_ns: u64,
}

/// The serialization delay of the largest payload on a link, in nanoseconds.
pub open spec fn serialization_ns(payload_bytes: u32, link_speed_bps: u64) -> int {
    (payload_bytes * 8 * 1_000_000_000) / (link_speed_bps as int)
}

/// The queuing delay bound at a hop: two cycles plus the time to drain the burst backlog.
pub open spec fn queuing_ns(cycle_time_ns: u64, backlog_bytes: u64, link_speed_bps: u64) -> int {
    2 * cycle_time_ns + (backlog_bytes * 8 * 1_000_000_000) / (link_speed_bps as int)
}

/// The delay bound of a hop: serialization, queuing, propagation and processing.
pub open spec fn hop_delay(
    payload_bytes: u32,
    link_speed_bps: u64,
    cycle_time_ns: u64,
    propagation_delay_ns: u64,
    processing_delay_ns: u64,
    backlog_bytes: u64,
) -> int {
    serialization_ns(payload_bytes, link_speed_bps) + queuing_ns(cycle_time_ns, backlog_bytes, link_speed_bps)
        + propagation_delay_ns + processing_delay_ns
}

/// The delay bound of a hop for `flow` (see `hop_delay`), with `backlog_bytes` the
/// burst backlog at the node once the flow is added.
pub fn hop_delay_ns(
    flow: &DetNetFlowSpec,
    link_speed_bps: u64,
    cycle_time_ns: u64,
    propagation_delay_ns: u64,
    processing_delay_ns: u64,
    backlog_bytes: u64,
) -> (r: u64)
    requires
        link_speed_bps > 0,
        backlog_bytes * 8 * 1_000_000_000 <= u64::MAX,
        flow.max_payload_bytes * 8 * 1_000_000_000 <= u64::MAX,
        2 * cycle_time_ns <= u64::MAX,
        hop_delay(
            flow.max_payload_bytes,
            link_speed_bps,
            cycle_time_ns,
            propagation_delay_ns,
            processing_delay_ns,
            backlog_bytes,
        ) <= u64::MAX,
    ensures
        r == hop_delay(
            flow.max_payload_bytes,
            link_speed_bps,
            cycle_time_ns,
            propagation_delay_ns,
            processing_delay_ns,
            backlog_bytes,
        ),
{
    let ser = (flow.max_payload_bytes as u64) * 8 * 1_000_000_000 / link_speed_bps;
    let drain = backlog_bytes * 8 * 1_000_000_000 / link_speed_bps;
    assert(drain <= backlog_bytes * 8 * 1_000_000_000) by (nonlinear_arith)
        requires
            link_speed_bps > 0,
            drain == backlog_bytes * 8 * 1_000_000_000 / (link_speed_bps as int),
    ;
    let queuing = 2 * cycle_time_ns + drain;
    ser + queuing + propagation_delay_ns + processing_delay_ns
}

/// Why a path is not schedulable on latency or jitter.
#[derive(Debug, Clone, Copy, PartialEq, Eq, Structural)]
pub enum BudgetVerdict {
    Within,
    LatencyExceeded,
    JitterExceeded,
}

/// The verdict on the end-to-end bounds: latency is checked first, then jitter.
pub open spec fn budget_verdict_of(flow: DetNetFlowSpec, latency_ns: u64, jitter_ns: u64) -> BudgetVerdict {
    if latency_ns > flow.max_tolerable_latency_ns {
        BudgetVerdict::LatencyExceeded
    } else if jitter_ns > flow.max_tolerable_jitter_ns {
        BudgetVerdict::JitterExceeded
    } else {
        BudgetVerdict::Within
    }
}

/// Checks the end-to-end latency and jitter bounds against the flow's tolerances.
pub fn budget_verdict(flow: &DetNetFlowSpec, latency_ns: u64, jitter_ns: u64) -> (r: BudgetVerdict)
    ensures
        r == budget_verdict_of(*flow, latency_ns, jitter_ns),
{
    if latency_ns > flow.max_tolerable_latency_ns {
        BudgetVerdict::LatencyExceeded
    } else if jitter_ns > flow.max_tolerable_jitter_ns {
        BudgetVerdict::JitterExceeded
    } else {
        BudgetVerdict::Within
    }
}

/// How often `k` occurs in `path`.
pub open spec fn visits(path: Seq<u32>, k: u32) -> nat
    decreases path.len(),
{
    if path.len() == 0 {
        0
    } else {
        visits(path.drop_last(), k) + (if path.last() == k { 1nat } else { 0nat })
    }
}

/// The amount at `k`, zero where there is none.
pub open spec fn amount_at(m: Map<u32, u64>, k: u32) -> int {
    if m.dom().contains(k) { m[k] as int } else { 0 }
}

/// The amounts after `amt` is added at every node of `path`, once per visit.
pub open spec fn added_along(m: Map<u32, u64>, path: Seq<u32>, amt: u64) -> Map<u32, u64> {
    Map::new(
        |k: u32| m.dom().contains(k) || path.contains(k),
        |k: u32| (amount_at(m, k) + amt * visits(path, k)) as u64,
    )
}

/// Whether adding along `path` stays within `u64`.
pub open spec fn fits_along(m: Map<u32, u64>, path: Seq<u32>, amt: u64) -> bool {
    forall|k: u32| #[trigger] path.contains(k) ==> amount_at(m, k) + amt * visits(path, k) <= u64::MAX
}

/// The amounts after `amt` is taken back at every node of `path` that has an amount,
/// once per visit, never below zero.
pub open spec fn released_along(m: Map<u32, u64>, path: Seq<u32>, amt: u64) -> Map<u32, u64> {
    Map::new(
        |k: u32| m.dom().contains(k),
        |k: u32| if m[k] >= amt * visits(path, k) { (m[k] - amt * visits(path, k)) as u64 } else { 0u64 },
    )
}

proof fn lemma_visits_bounds(path: Seq<u32>, k: u32, i: int)
    requires
        0 <= i <= path.len(),
    ensures
        visits(path.take(i), k) <= visits(path, k),
        path.contains(k) || visits(path, k) == 0,
    decreases path.len() - i,
{
    if i < path.len() {
        lemma_visits_bounds(path, k, i + 1);
        assert(path.take(i + 1).drop_last() =~= path.take(i));
    } else {
        assert(path.take(i) =~= path);
    }
    lemma_visits_zero(path, k);
}

proof fn lemma_visits_zero(path: Seq<u32>, k: u32)
    ensures
        path.contains(k) || visits(path, k) == 0,
    decreases path.len(),
{
    if path.len() > 0 {
        lemma_visits_zero(path.drop_last(), k);
        if path.drop_last().contains(k) {
            let j = choose|j: int| 0 <= j < path.drop_last().len() && path.drop_last()[j] == k;
            assert(path[j] == k);
        }
        if path.last() == k {
            assert(path[path.len() - 1] == k);
        }
    }
}

/// The reservations of admitted flows and what they hold at each node.
pub struct ReservationLedger {
    pub active_reservations: HashMap<u32, (DetNetFlowSpec, Vec<u32>)>,
    pub node_reserved_bandwidth: HashMap<u32, u64>,
    pub node_burst_backlog: HashMap<u32, u64>,
}

impl ReservationLedger {
    pub fn new() -> (r: Self)
        ensures
            r.active_reservations@ == Map::<u32, (DetNetFlowSpec, Vec<u32>)>::empty(),
            r.node_reserved_bandwidth@ == Map::<u32, u64>::empty(),
            r.node_burst_backlog@ == Map::<u32, u64>::empty(),
    {
        ReservationLedger {
            active_reservations: HashMap::new(),
            node_reserved_bandwidth: HashMap::new(),
            node_burst_backlog: HashMap::new(),
        }
    }

    /// Starts the accounts of a node at zero, unless it has them.
    pub fn register_node(&mut self, node_id: u32)
        ensures
            final(self).node_reserved_bandwidth@ == (if old(self).node_reserved_bandwidth@.contains_key(node_id) {
                old(self).node_reserved_bandwidth@
            } else {
                old(self).node_reserved_bandwidth@.insert(node_id, 0)
            }),
            final(self).node_burst_backlog@ == (if old(self).node_burst_backlog@.contains_key(node_id) {
                old(self).node_burst_backlog@
            } else {
                old(self).node_burst_backlog@.insert(node_id, 0)
            }),
            final(self).active_reservations@ == old(self).active_reservations@,
    {
        if !self.node_reserved_bandwidth.contains_key(&node_id) {
            self.node_reserved_bandwidth.insert(node_id, 0);
        }
        if !self.node_burst_backlog.contains_key(&node_id) {
            self.node_burst_backlog.insert(node_id, 0);
        }
    }

    /// The bandwidth and burst backlog reserved at a node (zero where none).
    pub fn reserved_at(&self, node_id: u32) -> (r: (u64, u64))
        ensures
            r.0 == amount_at(self.node_reserved_bandwidth@, node_id),
            r.1 == amount_at(self.node_burst_backlog@, node_id),
    {
        let rate = match self.node_reserved_bandwidth.get(&node_id) {
            Some(v) => *v,
            None => 0,
        };
        let burst = match self.node_burst_backlog.get(&node_id) {
            Some(v) => *v,
            None => 0,
        };
        (rate, burst)
    }

    /// Commits an admitted flow: its rate and burst are added at every node of its path
    /// (once per visit), and the reservation is kept under its flow identifier.
    pub fn commit(&mut self, flow: DetNetFlowSpec, path: Vec<u32>)
        requires
            fits_along(old(self).node_reserved_bandwidth@, path@, flow.peak_data_rate_bps),
            fits_along(old(self).node_burst_backlog@, path@, flow.max_burst_bytes as u64),
        ensures
            final(self).node_reserved_bandwidth@ == added_along(
                old(self).node_reserved_bandwidth@,
                path@,
                flow.peak_data_rate_bps,
            ),
            final(self).node_burst_backlog@ == added_along(old(self).node_burst_backlog@, path@, flow.max_burst_bytes as u64),
            final(self).active_reservations@ == old(self).active_reservations@.insert(flow.flow_id, (flow, path)),
    {
        let ghost m0 = self.node_reserved_bandwidth@;
        let ghost b0 = self.node_burst_backlog@;
        let rate = flow.peak_data_rate_bps;
        let burst = flow.max_burst_bytes as u64;
        let mut i: usize = 0;
        proof {
            let e = path@.take(0);
            assert(e =~= Seq::<u32>::empty());
            assert forall|k: u32| visits(e, k) == 0 by {}
            assert(added_along(m0, e, rate) =~= m0);
            assert(added_along(b0, e, burst) =~= b0);
        }
        while i < path.len()
            invariant
                i <= path@.len(),
                fits_along(m0, path@, rate),
                fits_along(b0, path@, burst),
                self.node_reserved_bandwidth@ == added_along(m0, path@.take(i as int), rate),
                self.node_burst_backlog@ == added_along(b0, path@.take(i as int), burst),
                self.active_reservations@ == old(self).active_reservations@,
            decreases path@.len() - i,
        {
            let node = path[i];
            proof {
                assert(path@.take(i + 1).drop_last() =~= path@.take(i as int));
                assert(path@.contains(node));
                lemma_visits_bounds(path@, node, i + 1);
                assert(rate * visits(path@.take(i + 1), node) <= rate * visits(path@, node)) by (nonlinear_arith)
                    requires
                        visits(path@.take(i + 1), node) <= visits(path@, node),
                ;
                assert(burst * visits(path@.take(i + 1), node) <= burst * visits(path@, node)) by (nonlinear_arith)
                    requires
                        visits(path@.take(i + 1), node) <= visits(path@, node),
                ;
                assert(rate * visits(path@.take(i + 1), node) == rate * visits(path@.take(i as int), node) + rate) by (
                nonlinear_arith)
                    requires
                        visits(path@.take(i + 1), node) == visits(path@.take(i as int), node) + 1,
                ;
                assert(burst * visits(path@.take(i + 1), node) == burst * visits(path@.take(i as int), node) + burst) by (
                nonlinear_arith)
                    requires
                        visits(path@.take(i + 1), node) == visits(path@.take(i as int), node) + 1,
                ;
                lemma_visits_zero(path@.take(i as int), node);
            }
            let cur = match self.node_reserved_bandwidth.get(&node) {
                Some(v) => *v,
                None => 0,
            };
            self.node_reserved_bandwidth.insert(node, cur + rate);
            let curb = match self.node_burst_backlog.get(&node) {
                Some(v) => *v,
                None => 0,
            };
            self.node_burst_backlog.insert(node, curb + burst);
            i = i + 1;
            proof {
                let t = path@.take(i as int);
                assert forall|k: u32| k != node implies visits(t, k) == visits(path@.take(i - 1), k) by {}
                assert(self.node_reserved_bandwidth@ =~= added_along(m0, t, rate)) by {
                    assert forall|k: u32| #[trigger] added_along(m0, t, rate).dom().contains(k) <==> self.node_reserved_bandwidth@.dom().contains(k) by {
                        if k != node && t.contains(k) {
                            let j = choose|j: int| 0 <= j < t.len() && t[j] == k;
                            assert(j < i - 1);
                            assert(path@.take(i - 1)[j] == k);
                        }
                        if k == node {
                            assert(t[i - 1] == node);
                        }
                    }
                }
                assert(self.node_burst_backlog@ =~= added_along(b0, t, burst)) by {
                    assert forall|k: u32| #[trigger] added_along(b0, t, burst).dom().contains(k) <==> self.node_burst_backlog@.dom().contains(k) by {
                        if k != node && t.contains(k) {
                            let j = choose|j: int| 0 <= j < t.len() && t[j] == k;
                            assert(j < i - 1);
                            assert(path@.take(i - 1)[j] == k);
                        }
                        if k == node {
                            assert(t[i - 1] == node);
                        }
                    }
                }
            }
        }
        assert(path@.take(i as int) =~= path@);
        self.active_reservations.insert(flow.flow_id, (flow, path));
    }
}

impl ReservationLedger {
    /// Releases a flow's reservation: its rate and burst are taken back at every node of
    /// its path that has accounts (once per visit, never below zero), and the reservation
    /// goes. Returns whether there was one; otherwise nothing changes.
    pub fn release_reservation(&mut self, flow_id: u32) -> (r: bool)
        ensures
            r == old(self).active_reservations@.contains_key(flow_id),
            !r ==> final(self).active_reservations@ == old(self).active_reservations@
                && final(self).node_reserved_bandwidth@ == old(self).node_reserved_bandwidth@
                && final(self).node_burst_backlog@ == old(self).node_burst_backlog@,
            r ==> ({
                let (flow, path) = old(self).active_reservations@[flow_id];
                &&& final(self).active_reservations@ == old(self).active_reservations@.remove(flow_id)
                &&& final(self).node_reserved_bandwidth@ == released_along(
                    old(self).node_reserved_bandwidth@,
                    path@,
                    flow.peak_data_rate_bps,
                )
                &&& final(self).node_burst_backlog@ == released_along(
                    old(self).node_burst_backlog@,
                    path@,
                    flow.max_burst_bytes as u64,
                )
            }),
    {
        let (flow, path) = match self.active_reservations.remove(&flow_id) {
            Some(entry) => entry,
            None => {
                return false;
            },
        };
        let ghost m0 = self.node_reserved_bandwidth@;
        let ghost b0 = self.node_burst_backlog@;
        release_along(&mut self.node_reserved_bandwidth, &path, flow.peak_data_rate_bps);
        release_along(&mut self.node_burst_backlog, &path, flow.max_burst_bytes as u64);
        true
    }
}

/// Takes `amt` back at every node of `path` that has an amount, once per visit.
fn release_along(m: &mut HashMap<u32, u64>, path: &Vec<u32>, amt: u64)
    ensures
        final(m)@ == released_along(old(m)@, path@, amt),
{
    let ghost m0 = m@;
    let mut i: usize = 0;
    proof {
        let e = path@.take(0);
        assert(e =~= Seq::<u32>::empty());
        assert forall|k: u32| visits(e, k) == 0 by {}
        assert(released_along(m0, e, amt) =~= m0);
    }
    while i < path.len()
        invariant
            i <= path@.len(),
            m@ == released_along(m0, path@.take(i as int), amt),
        decreases path@.len() - i,
    {
        let node = path[i];
        let ghost t0 = path@.take(i as int);
        let ghost t1 = path@.take(i + 1);
        proof {
            assert(t1.drop_last() =~= t0);
        }
        let cur = match m.get(&node) {
            Some(v) => Some(*v),
            None => None,
        };
        match cur {
            Some(v) => {
                let nv = if v >= amt { v - amt } else { 0 };
                m.insert(node, nv);
                proof {
                    let c = visits(t0, node);
                    assert(visits(t1, node) == c + 1);
                    let base = m0[node];
                    assert(amt * (c + 1) == amt * c + amt) by (nonlinear_arith);
                    assert(nv == (if base >= amt * (c + 1) { base - amt * (c + 1) } else { 0 })) by (nonlinear_arith)
                        requires
                            v == (if base >= amt * c { base - amt * c } else { 0 }),
                            nv == (if v >= amt { v - amt } else { 0 }),
                            amt * (c + 1) == amt * c + amt,
                            amt >= 0,
                            c >= 0,
                    ;
                }
            },
            None => {},
        }
        i = i + 1;
        proof {
            assert forall|k: u32| k != node implies visits(t1, k) == visits(t0, k) by {}
            assert(m@ =~= released_along(m0, t1, amt));
        }
    }
    assert(path@.take(i as int) =~= path@);
}

/// Releasing a flow right after committing it gives every node back what it had, as long
/// as the nodes of its path have accounts and the commit fitted.
pub proof fn lemma_release_undoes_commit(m: Map<u32, u64>, path: Seq<u32>, amt: u64)
    requires
        fits_along(m, path, amt),
        forall|k: u32| #[trigger] path.contains(k) ==> m.dom().contains(k),
    ensures
        released_along(added_along(m, path, amt), path, amt) == m,
{
    let a = added_along(m, path, amt);
    assert forall|k: u32| #[trigger] a.dom().contains(k) implies released_along(a, path, amt)[k] == m[k] by {
        lemma_visits_zero(path, k);
        if path.contains(k) {
            assert(amount_at(m, k) + amt * visits(path, k) <= u64::MAX);
        } else {
            assert(visits(path, k) == 0);
            assert(amt * visits(path, k) == 0) by (nonlinear_arith)
                requires
                    visits(path, k) == 0,
            ;
        }
    }
    assert(released_along(a, path, amt) =~= m);
}

} // verus!
