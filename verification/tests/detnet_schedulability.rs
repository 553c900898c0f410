use lib::detnet_schedulability::{budget_verdict, hop_delay_ns, BudgetVerdict, DetNetFlowSpec, ReservationLedger};
use lib::detnet_latency_budget::DetNetLatencyBudgetEngine;

fn flow() -> DetNetFlowSpec {
    DetNetFlowSpec {
        flow_id: 101,
        traffic_class: 7,
        peak_data_rate_bps: 1_000_000_000,
        max_payload_bytes: 1500,
        max_burst_bytes: 3000,
        max_tolerable_latency_ns: 2_000_000,
        max_tolerable_jitter_ns: 500_000,
    }
}

#[test]
fn hop_delay_on_ten_gigabit() {
    // 1500 B serialize in 1200 ns; 3000 B of backlog drain in 2400 ns; two 125 us cycles;
    // 5 us propagation and 2 us processing.
    let d = hop_delay_ns(&flow(), 10_000_000_000, 125_000, 5_000, 2_000, 3000);
    assert_eq!(d, 1_200 + 250_000 + 2_400 + 5_000 + 2_000);
}

#[test]
fn latency_then_jitter_verdict() {
    let f = flow();
    assert_eq!(budget_verdict(&f, 781_800, 375_000), BudgetVerdict::Within);
    assert_eq!(budget_verdict(&f, 2_000_001, 900_000), BudgetVerdict::LatencyExceeded);
    assert_eq!(budget_verdict(&f, 2_000_000, 500_001), BudgetVerdict::JitterExceeded);
}

#[test]
fn ledger_commit_and_release() {
    let mut l = ReservationLedger::new();
    for id in 1..=3 {
        l.register_node(id);
    }
    l.commit(flow(), vec![1, 2, 3]);
    assert_eq!(l.reserved_at(1), (1_000_000_000, 3000));
    assert_eq!(l.reserved_at(3), (1_000_000_000, 3000));
    // A path visiting a node twice reserves there twice.
    let mut f2 = flow();
    f2.flow_id = 102;
    l.commit(f2, vec![2, 2]);
    assert_eq!(l.reserved_at(2), (3_000_000_000, 9000));
    assert!(l.release_reservation(101));
    assert_eq!(l.reserved_at(1), (0, 0));
    assert_eq!(l.reserved_at(2), (2_000_000_000, 6000));
    assert!(!l.release_reservation(101));
    assert!(l.release_reservation(102));
    assert_eq!(l.reserved_at(2), (0, 0));
    assert_eq!(l.reserved_at(9), (0, 0));
    let _ = DetNetLatencyBudgetEngine::new();
}
