use lib::diameter::DIAMETER_SUCCESS;
use lib::diameter_s13_imeidb::{GsmaDeviceStatus, S13ImeiDbEngine, S13ImeiDbMessage, DIAMETER_ERROR_EQUIPMENT_BLOCKED};

#[test]
fn test_diameter_s13_imeidb_lifecycle() {
    let mut engine = S13ImeiDbEngine::new("imeidb.gsma.org", "gsma.org");

    engine.register_device("860012345678901", "Pixel 9 Pro", "Google", GsmaDeviceStatus::Stolen, "20801");

    let req1 = S13ImeiDbMessage::new_request(
        "sess-imeidb-01",
        "mme01.epc.mnc002.mcc208.3gppnetwork.org",
        "epc.mnc002.mcc208.3gppnetwork.org",
        "gsma.org",
        "860012345678901",
    );

    let ans1 = engine.process_idr(&req1);
    assert_eq!(ans1.result_code, DIAMETER_ERROR_EQUIPMENT_BLOCKED);
    assert_eq!(ans1.status, Some(GsmaDeviceStatus::Stolen));
    assert_eq!(ans1.model_info, Some("Google Pixel 9 Pro".to_string()));

    let req2 = S13ImeiDbMessage::new_request(
        "sess-imeidb-02",
        "mme01.epc.mnc002.mcc208.3gppnetwork.org",
        "epc.mnc002.mcc208.3gppnetwork.org",
        "gsma.org",
        "869999999999999",
    );

    let ans2 = engine.process_idr(&req2);
    assert_eq!(ans2.result_code, DIAMETER_SUCCESS);
    assert_eq!(ans2.status, Some(GsmaDeviceStatus::Clean));
}

#[test]
fn imeidb_tac_update_and_counters() {
    let mut engine = S13ImeiDbEngine::new("h", "r");
    let req = S13ImeiDbMessage::new_request("s", "o", "or", "d", "35123456789");
    assert_eq!(req.tac, "35123456");
    assert_eq!(S13ImeiDbMessage::new_request("s", "o", "or", "d", "351").tac, "351");
    engine.register_device("35123456789", "A", "B", GsmaDeviceStatus::Clean, "1");
    engine.register_device("35123456789", "C", "D", GsmaDeviceStatus::ClonedFraud, "2");
    assert_eq!(engine.records.len(), 1);
    assert_eq!(engine.records[0].tac, "35123456");
    let ans = engine.process_idr(&req);
    assert_eq!(ans.model_info.as_deref(), Some("D C"));
    assert_eq!(ans.result_code, 5005);
    assert_eq!(engine.total_blocked_responses, 1);
    let other = engine.process_idr(&S13ImeiDbMessage::new_request("s", "o", "or", "d", "1"));
    assert_eq!(other.model_info.as_deref(), Some("Generic 5G UE"));
    assert_eq!(engine.total_clean_responses, 1);
    assert!(GsmaDeviceStatus::Clean.is_allowed());
    assert!(!GsmaDeviceStatus::RegulatoryBlocked.is_allowed());
}
