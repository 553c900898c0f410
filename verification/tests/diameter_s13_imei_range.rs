use lib::diameter_s13_escn::S13EquipmentStatus;
use lib::diameter_s13_imei_range::{DiameterS13ImeiRangeEngine, ImeiRangeVerdict};

#[test]
fn test_range_rule_matching() {
    let mut engine = DiameterS13ImeiRangeEngine::new();
    engine.add_rule(35391800, 35391899, S13EquipmentStatus::BlackListed, "Compromised Batch", 100);
    engine.add_rule(35300000, 35399999, S13EquipmentStatus::GrayListed, "Vendor Observation", 50);

    let v1 = engine.evaluate_imei("353918551234567");
    assert!(matches!(v1, ImeiRangeVerdict::RangeMatched { status: S13EquipmentStatus::BlackListed, .. }));

    let v2 = engine.evaluate_imei("353500001234567");
    assert!(matches!(v2, ImeiRangeVerdict::RangeMatched { status: S13EquipmentStatus::GrayListed, .. }));

    let v3 = engine.evaluate_imei("860000001234567");
    assert!(matches!(v3, ImeiRangeVerdict::DefaultWhiteListed { .. }));
}

#[test]
fn range_rules_sorted_stably_and_invalid_input() {
    let mut engine = DiameterS13ImeiRangeEngine::default();
    engine.add_rule(20, 10, S13EquipmentStatus::GrayListed, "a", 5);
    engine.add_rule(1, 2, S13EquipmentStatus::Unknown, "b", 9);
    engine.add_rule(3, 4, S13EquipmentStatus::BlackListed, "c", 5);
    let order: Vec<&str> = engine.rules.iter().map(|r| r.description.as_str()).collect();
    assert_eq!(order, vec!["b", "a", "c"]);
    assert_eq!(engine.rules[1].start_tac, 10);
    assert_eq!(engine.rules[1].end_tac, 20);
    assert_eq!(
        engine.evaluate_imei(" 00000015999 "),
        ImeiRangeVerdict::RangeMatched { imei: "00000015999".into(), tac: 15, status: S13EquipmentStatus::GrayListed, description: "a".into(), priority: 5 }
    );
    assert_eq!(engine.evaluate_imei("1234567"), ImeiRangeVerdict::InvalidImeiFormat { input: "1234567".into() });
    assert_eq!(engine.total_invalid_queries, 1);
    engine.clear_rules();
    engine.reset_stats();
    assert_eq!(engine.total_queries, 0);
    assert!(engine.rules.is_empty());
}
