use lib::diameter_s6a_idr::{
    DynamicSubscriberProfile, S6aIdrAvp, S6aIdrEngine, S6aIdrMessage, DIAMETER_CMD_INSERT_SUBSCRIBER_DATA,
};

#[test]
fn test_s6a_idr_profile_update() {
    let mut engine = S6aIdrEngine::new("hss.carrier.org");

    let prof = DynamicSubscriberProfile {
        imsi: "460012345678901".into(),
        max_bandwidth_ul_kbps: 50_000,
        max_bandwidth_dl_kbps: 100_000,
        default_apn: "ims.mnc001.mcc460.gprs".into(),
        roaming_allowed: true,
    };

    let idr = engine.update_profile(prof);
    assert_eq!(idr.command_code, DIAMETER_CMD_INSERT_SUBSCRIBER_DATA);
    assert!(idr.is_request);

    let ida = S6aIdrMessage::new_ida(&idr, 2001);
    assert!(engine.handle_ida(&ida));
    assert_eq!(engine.total_idr_sent, 1);
    assert_eq!(engine.total_ida_received, 1);
}

#[test]
fn idr_session_and_avps() {
    let mut engine = S6aIdrEngine::new("hss");
    let prof = DynamicSubscriberProfile {
        imsi: "001".into(),
        max_bandwidth_ul_kbps: 1,
        max_bandwidth_dl_kbps: 2,
        default_apn: "apn".into(),
        roaming_allowed: false,
    };
    let idr = engine.update_profile(prof.clone());
    assert_eq!(idr.session_id, "s6a-idr-001");
    assert_eq!(idr.avps[4], S6aIdrAvp::RoamingRestricted(true));
    assert_eq!(engine.subscriber_profiles.get("001"), Some(&prof));
    let nack = S6aIdrMessage::new_ida(&idr, 5001);
    assert!(!engine.handle_ida(&nack));
}
