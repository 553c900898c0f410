use lib::diameter_s13_escn::{EscnVerdict, S13EquipmentStatus, S13EscnEngine};

#[test]
fn test_s13_escn_lifecycle() {
    let mut engine = S13EscnEngine::new("eir01.epc.mnc001.mcc208.3gppnetwork.org");
    engine.subscribe_mme("mme01.epc.mnc001.mcc208.3gppnetwork.org");
    engine.subscribe_mme("mme02.epc.mnc001.mcc208.3gppnetwork.org");

    let v1 = engine.update_equipment_status("353918001234567", S13EquipmentStatus::BlackListed, "Police Report Stolen", 1000);
    assert_eq!(
        v1,
        EscnVerdict::StatusChangedNotificationsQueued {
            imei: "353918001234567".to_string(),
            old_status: S13EquipmentStatus::WhiteListed,
            new_status: S13EquipmentStatus::BlackListed,
            notified_mme_count: 2,
        }
    );
    assert_eq!(engine.total_notifications_generated, 2);

    let ack1 = engine.acknowledge_notification("353918001234567", "mme01.epc.mnc001.mcc208.3gppnetwork.org");
    assert!(ack1);
    assert_eq!(engine.total_notifications_acked, 1);

    let cached = vec![
        ("353918001234567".to_string(), S13EquipmentStatus::WhiteListed),
        ("860011112222333".to_string(), S13EquipmentStatus::WhiteListed),
    ];
    let audit = engine.audit_edge_cache("mme02.epc.mnc001.mcc208.3gppnetwork.org", &cached);
    assert_eq!(audit.len(), 2);
    assert!(!audit[0].synchronized);
    assert_eq!(audit[0].eir_authoritative_status, S13EquipmentStatus::BlackListed);
    assert!(audit[1].synchronized);
    assert_eq!(engine.total_discrepancies_fixed, 1);
}

#[test]
fn escn_invalid_unchanged_and_texts() {
    let mut engine = S13EscnEngine::new("eir");
    engine.subscribe_mme("a");
    engine.subscribe_mme("a");
    engine.subscribe_mme("b");
    engine.unsubscribe_mme("a");
    assert_eq!(engine.subscribed_mmes, vec!["b".to_string()]);
    assert_eq!(
        engine.update_equipment_status(" 12ab ", S13EquipmentStatus::GrayListed, "r", 1),
        EscnVerdict::InvalidImeiRejected { input: " 12ab ".to_string() }
    );
    assert_eq!(
        engine.update_equipment_status(" 35391800123456 ", S13EquipmentStatus::WhiteListed, "r", 1),
        EscnVerdict::StatusUnchangedIgnored { imei: "35391800123456".to_string(), status: S13EquipmentStatus::WhiteListed }
    );
    engine.update_equipment_status("35391800123456", S13EquipmentStatus::GrayListed, "r", 2);
    assert_eq!(engine.query_status(" 35391800123456\n"), S13EquipmentStatus::GrayListed);
    assert!(!engine.acknowledge_notification("35391800123456", "a"));
    let audit = engine.audit_edge_cache("b", &[("35391800123456".to_string(), S13EquipmentStatus::Unknown)]);
    assert_eq!(audit[0].action_taken, "Discrepancy Fixed: Edge cache updated from Unknown to GrayListed");
    assert_eq!(S13EquipmentStatus::BlackListed.as_str(), "BlackListed");
}
