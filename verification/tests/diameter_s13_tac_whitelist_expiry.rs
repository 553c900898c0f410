use lib::diameter_s13_escn::S13EquipmentStatus;
use lib::diameter_s13_tac_whitelist_expiry::{DiameterS13TacWhitelistExpiryEngine, LeaseVerdict};

#[test]
fn test_tac_lease_lifecycle() {
    let mut engine = DiameterS13TacWhitelistExpiryEngine::new();

    let id1 = engine.grant_lease(35391800, 35391899, 1000, 100, 20, S13EquipmentStatus::BlackListed, "Manufacturer Pilot Test Batch");
    assert_eq!(id1, 1);

    let v1 = engine.evaluate_imei("353918001234567", 1050);
    assert_eq!(
        v1,
        LeaseVerdict::LeaseActive { lease_id: 1, imei: "353918001234567".to_string(), tac: 35391800, remaining_s: 50, status: S13EquipmentStatus::WhiteListed }
    );

    let v2 = engine.evaluate_imei("353918001234567", 1110);
    assert_eq!(
        v2,
        LeaseVerdict::LeaseInGracePeriod { lease_id: 1, imei: "353918001234567".to_string(), tac: 35391800, grace_remaining_s: 10, status: S13EquipmentStatus::GrayListed }
    );

    let v3 = engine.evaluate_imei("353918001234567", 1125);
    assert_eq!(
        v3,
        LeaseVerdict::LeaseExpiredFallback { lease_id: 1, imei: "353918001234567".to_string(), tac: 35391800, fallback_status: S13EquipmentStatus::BlackListed }
    );

    assert!(engine.renew_lease(1, 200));
    let v4 = engine.evaluate_imei("353918001234567", 1125);
    assert_eq!(
        v4,
        LeaseVerdict::LeaseActive { lease_id: 1, imei: "353918001234567".to_string(), tac: 35391800, remaining_s: 175, status: S13EquipmentStatus::WhiteListed }
    );

    assert!(engine.revoke_lease(1));
    let v5 = engine.evaluate_imei("353918001234567", 1125);
    assert_eq!(
        v5,
        LeaseVerdict::LeaseExpiredFallback { lease_id: 1, imei: "353918001234567".to_string(), tac: 35391800, fallback_status: S13EquipmentStatus::BlackListed }
    );
}

#[test]
fn lease_sweep_defaults_and_reset() {
    let mut engine = DiameterS13TacWhitelistExpiryEngine::default();
    let a = engine.grant_lease(20, 10, 0, 0, 5, S13EquipmentStatus::GrayListed, "a");
    let b = engine.grant_lease(100, 200, 0, 1000, 0, S13EquipmentStatus::Unknown, "b");
    assert_eq!((a, b), (1, 2));
    assert_eq!(engine.leases[0].duration_s, 1);
    assert_eq!(engine.leases[0].start_tac, 10);
    assert_eq!(engine.sweep_expired_leases(6), vec![1]);
    assert!(engine.revoke_lease(2));
    assert!(!engine.renew_lease(2, 5));
    assert!(!engine.revoke_lease(9));
    assert_eq!(engine.sweep_expired_leases(0), vec![2]);
    assert_eq!(
        engine.evaluate_imei("99999999", 0),
        LeaseVerdict::NoLeaseFound { imei: "99999999".into(), tac: 99999999, default_status: S13EquipmentStatus::WhiteListed }
    );
    assert_eq!(engine.evaluate_imei("abc", 0), LeaseVerdict::InvalidImeiFormat { input: "abc".into() });
    engine.reset();
    assert_eq!(engine.next_lease_id, 1);
    assert_eq!(engine.total_queries, 0);
}

#[test]
fn grace_period_past_the_clock_range_stays_in_grace() {
    let mut engine = DiameterS13TacWhitelistExpiryEngine::new();
    engine.grant_lease(35391800, 35391899, 0, 100, u64::MAX, S13EquipmentStatus::BlackListed, "long grace");
    let v = engine.evaluate_imei("353918001234567", 150);
    assert_eq!(
        v,
        LeaseVerdict::LeaseInGracePeriod {
            lease_id: 1,
            imei: "353918001234567".to_string(),
            tac: 35391800,
            grace_remaining_s: u64::MAX - 50,
            status: S13EquipmentStatus::GrayListed
        }
    );
}
