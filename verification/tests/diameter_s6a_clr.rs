use lib::diameter_s6a_clr::{
    CancellationType, S6aClrEngine, S6aClrMessage, RESULT_CODE_SUCCESS, RESULT_CODE_USER_UNKNOWN,
};

#[test]
fn test_cancel_location_lifecycle() {
    let mut mme_engine = S6aClrEngine::new(
        "mme01.epc.mnc001.mcc208.3gppnetwork.org",
        "epc.mnc001.mcc208.3gppnetwork.org",
    );

    let imsi = "208950000000001";
    mme_engine.attach_subscriber(imsi);

    assert!(mme_engine.active_subscribers[0].is_active);

    let clr = S6aClrMessage::new_clr(
        "sess-clr-01",
        "hss01.epc.mnc001.mcc208.3gppnetwork.org",
        "epc.mnc001.mcc208.3gppnetwork.org",
        "mme01.epc.mnc001.mcc208.3gppnetwork.org",
        "epc.mnc001.mcc208.3gppnetwork.org",
        imsi,
        CancellationType::MmeUpdateProcedure,
        0,
    );

    let cla = mme_engine.process_clr(&clr);
    assert_eq!(cla.result_code(), Some(RESULT_CODE_SUCCESS));
    assert!(!mme_engine.active_subscribers[0].is_active);
    assert_eq!(
        mme_engine.active_subscribers[0].cancellation_reason,
        Some(CancellationType::MmeUpdateProcedure)
    );

    let clr_unknown = S6aClrMessage::new_clr(
        "sess-clr-02",
        "hss01.epc.mnc001.mcc208.3gppnetwork.org",
        "epc.mnc001.mcc208.3gppnetwork.org",
        "mme01.epc.mnc001.mcc208.3gppnetwork.org",
        "epc.mnc001.mcc208.3gppnetwork.org",
        "999999999999999",
        CancellationType::SubscriptionWithdrawal,
        0,
    );
    let cla_unknown = mme_engine.process_clr(&clr_unknown);
    assert_eq!(cla_unknown.result_code(), Some(RESULT_CODE_USER_UNKNOWN));
}

#[test]
fn cancellation_codes_and_reattach() {
    for v in 0u32..5 {
        assert_eq!(CancellationType::from_u32(v).unwrap().to_u32(), v);
    }
    assert_eq!(CancellationType::from_u32(5), None);
    assert_eq!(CancellationType::SubscriptionWithdrawal.to_u32(), 2);

    let mut e = S6aClrEngine::new("mme", "realm");
    e.attach_subscriber("1");
    let clr = S6aClrMessage::new_clr("s", "h", "r", "d", "dr", "1", CancellationType::SubscriptionWithdrawal, 1);
    assert_eq!(clr.imsi(), Some("1"));
    assert_eq!(clr.cancellation_type(), Some(CancellationType::SubscriptionWithdrawal));
    e.process_clr(&clr);
    assert_eq!(e.active_subscribers[0].cancellation_reason, Some(CancellationType::SubscriptionWithdrawal));
    e.attach_subscriber("1");
    assert_eq!(e.active_subscribers.len(), 1);
    assert!(e.active_subscribers[0].is_active);
    assert_eq!(e.active_subscribers[0].cancellation_reason, None);
    assert_eq!(e.total_cancelled_success, 1);
    assert_eq!(e.total_rejected, 0);
    assert_eq!(e.total_clr_received, 1);
}
