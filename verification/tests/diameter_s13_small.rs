use lib::diameter::DIAMETER_SUCCESS;
use lib::diameter_s13_bulk::{BulkBlacklistAction, S13BulkEngine, S13BulkMessage};
use lib::diameter_s13_cache::{DiameterS13CacheEngine, EirCacheLookupResult, EirEquipmentStatus};

#[test]
fn test_diameter_s13_bulk_lifecycle() {
    let mut engine = S13BulkEngine::new(
        "mme01.epc.mnc001.mcc208.3gppnetwork.org",
        "epc.mnc001.mcc208.3gppnetwork.org",
    );
    let imeis_add = vec!["860000000000001", "860000000000002", "860000000000003"];
    let bbr1 = S13BulkMessage::new_bbr(
        "sess-bulk-01",
        "eir01.epc.mnc001.mcc208.3gppnetwork.org",
        "epc.mnc001.mcc208.3gppnetwork.org",
        "epc.mnc001.mcc208.3gppnetwork.org",
        100,
        BulkBlacklistAction::Add,
        &imeis_add,
    );
    let bba1 = engine.process_bbr(&bbr1);
    assert_eq!(bba1.result_code, Some(DIAMETER_SUCCESS));
    assert_eq!(engine.current_version, 100);
    assert_eq!(engine.blacklisted_imeis.len(), 3);
    assert!(engine.is_blacklisted("860000000000002"));

    let imeis_rem = vec!["860000000000002"];
    let bbr2 = S13BulkMessage::new_bbr(
        "sess-bulk-02",
        "eir01.epc.mnc001.mcc208.3gppnetwork.org",
        "epc.mnc001.mcc208.3gppnetwork.org",
        "epc.mnc001.mcc208.3gppnetwork.org",
        101,
        BulkBlacklistAction::Remove,
        &imeis_rem,
    );
    let bba2 = engine.process_bbr(&bbr2);
    assert_eq!(bba2.result_code, Some(DIAMETER_SUCCESS));
    assert_eq!(engine.current_version, 101);
    assert_eq!(engine.blacklisted_imeis.len(), 2);
    assert!(!engine.is_blacklisted("860000000000002"));
}

#[test]
fn s13_bulk_duplicates_and_reset() {
    let mut engine = S13BulkEngine::new("n", "r");
    let bbr = S13BulkMessage::new_bbr("s", "h", "r", "d", 1, BulkBlacklistAction::Add, &["a", "a", "b"]);
    engine.process_bbr(&bbr);
    assert_eq!(engine.blacklisted_imeis, vec!["a".to_string(), "b".to_string()]);
    assert_eq!(engine.total_additions, 2);
    let reset = S13BulkMessage::new_bbr("s", "h", "r", "d", 2, BulkBlacklistAction::FullSyncReset, &["z"]);
    let ans = engine.process_bbr(&reset);
    assert_eq!(engine.blacklisted_imeis, vec!["z".to_string()]);
    assert_eq!(engine.total_additions, 3);
    assert_eq!(ans.origin_host, "n");
    assert_eq!(BulkBlacklistAction::from_u32(2), BulkBlacklistAction::FullSyncReset);
    assert_eq!(BulkBlacklistAction::from_u32(7), BulkBlacklistAction::Add);
}

#[test]
fn test_diameter_s13_cache_lifecycle() {
    let mut cache = DiameterS13CacheEngine::new(3600, 50);
    let imei_white = "860123456789012";
    let imei_black = "869999999999999";
    let imei_gray = "868888888888888";

    cache.insert(imei_white, EirEquipmentStatus::WhiteListed, 1000, None);
    cache.insert(imei_black, EirEquipmentStatus::BlackListed, 1000, None);
    cache.insert(imei_gray, EirEquipmentStatus::GrayListed, 1000, Some(60));

    assert_eq!(cache.query(imei_white, 1010), EirCacheLookupResult::Hit(EirEquipmentStatus::WhiteListed));
    assert_eq!(cache.query(imei_black, 1010), EirCacheLookupResult::Hit(EirEquipmentStatus::BlackListed));
    assert_eq!(cache.query(imei_gray, 1010), EirCacheLookupResult::Hit(EirEquipmentStatus::GrayListed));
    assert_eq!(cache.query("111222333444555", 1010), EirCacheLookupResult::Miss);
    assert_eq!(
        cache.query(imei_gray, 1100),
        EirCacheLookupResult::Expired { previous_status: EirEquipmentStatus::GrayListed, expired_secs_ago: 40 }
    );
    let purged = cache.purge_expired(1100);
    assert_eq!(purged, 1);
    assert_eq!(cache.entries.len(), 2);
}

#[test]
fn s13_cache_eviction_and_refresh() {
    let mut cache = DiameterS13CacheEngine::new(10, 1);
    assert_eq!(cache.max_entries, 10);
    for i in 0..11u64 {
        cache.insert(&format!("imei{}", i), EirEquipmentStatus::WhiteListed, 0, None);
    }
    assert_eq!(cache.entries.len(), 10);
    assert_eq!(cache.entries[0].imei, "imei1");
    cache.insert("imei5", EirEquipmentStatus::BlackListed, 5, Some(u64::MAX));
    assert_eq!(cache.entries[4].status, EirEquipmentStatus::BlackListed);
    assert_eq!(cache.entries[4].expires_at_secs, u64::MAX);
    assert_eq!(cache.total_hits, 0);
}
