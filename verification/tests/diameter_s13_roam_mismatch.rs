use lib::diameter_s13_roam_mismatch::{RoamingValidationVerdict, S13RoamingMismatchEngine};

#[test]
fn test_s13_roaming_mismatch_lifecycle() {
    let mut engine = S13RoamingMismatchEngine::new();
    engine.add_blacklisted_origin_country("TEST");

    let v1 = engine.evaluate_roaming_equipment("012345678901234", "310410");
    assert!(matches!(v1, RoamingValidationVerdict::DomesticConformant { .. }));

    let v2 = engine.evaluate_roaming_equipment("353918001234567", "310410");
    assert!(matches!(v2, RoamingValidationVerdict::AuthorizedInternationalRoaming { .. }));

    let v3 = engine.evaluate_roaming_equipment("990012345678901", "310410");
    assert!(matches!(v3, RoamingValidationVerdict::BlacklistedCountryBlocked { .. }));
}

#[test]
fn roaming_longest_prefix_and_suspicious() {
    let mut engine = S13RoamingMismatchEngine::new();
    engine.add_tac_country_mapping("3591", "FR", "208", 70);
    let v = engine.evaluate_roaming_equipment("359100001234567", "31");
    assert_eq!(
        v,
        RoamingValidationVerdict::SuspiciousCountryMismatch {
            imei: "359100001234567".into(),
            tac: "35910000".into(),
            tac_origin_country: "FR".into(),
            serving_mcc: "31".into(),
            risk_score: 70
        }
    );
    assert_eq!(engine.evaluate_roaming_equipment("1234567", "310"), RoamingValidationVerdict::InvalidImeiFormat { input: "1234567".into() });
    assert_eq!(
        engine.evaluate_roaming_equipment("770000001234567", "000999"),
        RoamingValidationVerdict::DomesticConformant { imei: "770000001234567".into(), tac: "77000000".into(), serving_mcc: "000".into() }
    );
    engine.add_blacklisted_origin_country("fr");
    engine.add_blacklisted_origin_country("FR");
    assert_eq!(engine.blacklisted_origin_countries, vec!["FR".to_string()]);
    assert_eq!(engine.total_validations, 3);
    engine.reset();
    assert_eq!(engine.total_validations, 0);
}
