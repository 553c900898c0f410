use lib::diameter_s6a_uar::{
    S6aUarEngine, S6aUarMessage, SubscriberAuthRule, RESULT_CODE_ROAMING_NOT_ALLOWED,
    RESULT_CODE_SUCCESS, RESULT_CODE_USER_UNKNOWN, UAR_FLAG_EMERGENCY_ATTACH,
};

#[test]
fn test_uar_authorization_lifecycle() {
    let mut engine = S6aUarEngine::new("hss01", "epc.mnc001.mcc208.3gppnetwork.org");

    let home_plmn = [0x02, 0xF8, 0x59];
    let foreign_plmn = [0x02, 0xF8, 0x10];

    engine.add_subscriber_rule(SubscriberAuthRule {
        imsi: "208950000000001".to_string(),
        is_roaming_allowed: true,
        allowed_plmns: vec![home_plmn],
    });

    let uar_ok = S6aUarMessage::new_uar(
        "sess-1",
        "mme01",
        "epc.mnc001.mcc208.3gppnetwork.org",
        "epc.mnc001.mcc208.3gppnetwork.org",
        "208950000000001",
        home_plmn,
        0,
    );
    let uaa_ok = engine.process_uar(&uar_ok);
    assert_eq!(uaa_ok.result_code(), Some(RESULT_CODE_SUCCESS));

    let uar_roam = S6aUarMessage::new_uar(
        "sess-2",
        "mme01",
        "epc.mnc001.mcc208.3gppnetwork.org",
        "epc.mnc001.mcc208.3gppnetwork.org",
        "208950000000001",
        foreign_plmn,
        0,
    );
    let uaa_roam = engine.process_uar(&uar_roam);
    assert_eq!(uaa_roam.result_code(), Some(RESULT_CODE_ROAMING_NOT_ALLOWED));

    let uar_emg = S6aUarMessage::new_uar(
        "sess-3",
        "mme01",
        "epc.mnc001.mcc208.3gppnetwork.org",
        "epc.mnc001.mcc208.3gppnetwork.org",
        "208950000000001",
        foreign_plmn,
        UAR_FLAG_EMERGENCY_ATTACH,
    );
    let uaa_emg = engine.process_uar(&uar_emg);
    assert_eq!(uaa_emg.result_code(), Some(RESULT_CODE_SUCCESS));
}

#[test]
fn uar_unknown_barred_and_replaced_rules() {
    let mut engine = S6aUarEngine::new("hss", "realm");
    let p = [1, 2, 3];
    let unknown = S6aUarMessage::new_uar("s", "m", "r", "r", "404", p, 0);
    assert_eq!(engine.process_uar(&unknown).result_code(), Some(RESULT_CODE_USER_UNKNOWN));
    engine.add_subscriber_rule(SubscriberAuthRule { imsi: "1".to_string(), is_roaming_allowed: false, allowed_plmns: vec![] });
    let req = S6aUarMessage::new_uar("s", "m", "r", "r", "1", p, 0);
    assert_eq!(req.visited_plmn(), Some(p));
    assert_eq!(req.uar_flags(), 0);
    assert_eq!(engine.process_uar(&req).result_code(), Some(RESULT_CODE_ROAMING_NOT_ALLOWED));
    engine.add_subscriber_rule(SubscriberAuthRule { imsi: "1".to_string(), is_roaming_allowed: true, allowed_plmns: vec![] });
    assert_eq!(engine.subscriber_rules.len(), 1);
    assert_eq!(engine.process_uar(&req).result_code(), Some(RESULT_CODE_SUCCESS));
    assert_eq!(engine.total_uar_processed, 3);
    assert_eq!(engine.total_authorized, 1);
    assert_eq!(engine.total_rejected, 2);
}
