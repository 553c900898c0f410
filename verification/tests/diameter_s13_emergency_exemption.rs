use lib::diameter_s13_emergency_exemption::{
    DiameterS13EmergencyExemptionEngine, EmergencyCallType, EmergencyExemptionVerdict,
};
use lib::diameter_s13_escn::S13EquipmentStatus;

#[test]
fn test_emergency_exemption_lifecycle() {
    let mut engine = DiameterS13EmergencyExemptionEngine::new(3600);
    let stolen_imei = "867530901234567";
    engine.set_equipment_status(stolen_imei, S13EquipmentStatus::BlackListed);

    let v_block = engine.evaluate_access(stolen_imei, false, None, "internet", 1000);
    assert_eq!(
        v_block,
        EmergencyExemptionVerdict::NonEmergencyBlocked {
            imei: stolen_imei.to_string(),
            status: S13EquipmentStatus::BlackListed,
            reason: "Equipment is blacklisted (stolen/fraudulent) and request is non-emergency.",
        }
    );

    let v_exempt = engine.evaluate_access(
        stolen_imei,
        true,
        Some(EmergencyCallType::Voice112_911),
        "internet",
        1000,
    );
    assert_eq!(
        v_exempt,
        EmergencyExemptionVerdict::EmergencyExemptionGranted {
            imei: stolen_imei.to_string(),
            original_status: S13EquipmentStatus::BlackListed,
            call_type: EmergencyCallType::Voice112_911,
            session_id: 1,
            permitted_apn: "sos".to_string(),
        }
    );
    assert_eq!(engine.sessions.len(), 1);
    assert!(engine.sessions[0].is_active);

    assert_eq!(engine.sweep_expired(2000), 0);
    assert_eq!(engine.sweep_expired(5000), 1);
    assert!(!engine.sessions[0].is_active);
}

#[test]
fn emergency_malformed_unknown_whitelisted_and_terminate() {
    let mut engine = DiameterS13EmergencyExemptionEngine::new(100);
    assert_eq!(
        engine.evaluate_access("12ab", true, None, "sos", 0),
        EmergencyExemptionVerdict::MalformedImeiRejected { input: "12ab".to_string() }
    );
    assert!(engine.sessions.is_empty());

    let unknown = "111111111111111";
    engine.set_equipment_status(unknown, S13EquipmentStatus::Unknown);
    match engine.evaluate_access(unknown, false, None, "internet", 0) {
        EmergencyExemptionVerdict::NonEmergencyBlocked { status, reason, .. } => {
            assert_eq!(status, S13EquipmentStatus::Unknown);
            assert_eq!(reason, "Equipment status is unknown or unverified.");
        }
        other => panic!("unexpected verdict {:?}", other),
    }
    assert_eq!(engine.total_blocked_calls, 1);

    // An IMEI with no record is treated as whitelisted.
    let good = "222222222222222";
    assert_eq!(
        engine.evaluate_access(good, false, None, "internet", 0),
        EmergencyExemptionVerdict::StandardAccessAllowed {
            imei: good.to_string(),
            status: S13EquipmentStatus::WhiteListed,
        }
    );
    assert_eq!(engine.total_standard_calls, 1);

    // No call type given: voice emergency is assumed; an emergency APN request is kept.
    match engine.evaluate_access(unknown, true, None, "sos", 10) {
        EmergencyExemptionVerdict::EmergencyExemptionGranted { call_type, session_id, permitted_apn, .. } => {
            assert_eq!(call_type, EmergencyCallType::Voice112_911);
            assert_eq!(session_id, 1);
            assert_eq!(permitted_apn, "sos");
        }
        other => panic!("unexpected verdict {:?}", other),
    }
    assert!(engine.terminate_session(1));
    assert!(!engine.sessions[0].is_active);
    assert!(engine.terminate_session(1));
    assert!(!engine.terminate_session(99));
    assert_eq!(engine.sweep_expired(1000), 0);

    engine.reset();
    assert!(engine.sessions.is_empty());
    assert_eq!(engine.total_exemptions_granted, 0);
}
