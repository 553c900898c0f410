use lib::diameter_s6a_nor::{
    S6aNorEngine, S6aNorMessage, NOR_FLAG_READY_FOR_SM, NOR_FLAG_SRVCC_SUPPORT, RESULT_CODE_SUCCESS,
    RESULT_CODE_USER_UNKNOWN,
};

#[test]
fn test_notify_nor_noa_lifecycle() {
    let mut hss = S6aNorEngine::new(
        "hss01.epc.mnc001.mcc208.3gppnetwork.org",
        "epc.mnc001.mcc208.3gppnetwork.org",
    );
    let imsi = "208950123456789";
    hss.register_subscriber(imsi);

    let nor = S6aNorMessage::new_nor(
        "sess-nor-01",
        "mme01.epc.mnc001.mcc208.3gppnetwork.org",
        "epc.mnc001.mcc208.3gppnetwork.org",
        "hss01.epc.mnc001.mcc208.3gppnetwork.org",
        "epc.mnc001.mcc208.3gppnetwork.org",
        imsi,
        NOR_FLAG_SRVCC_SUPPORT | NOR_FLAG_READY_FOR_SM,
        Some("860123456789012"),
    );

    let noa = hss.process_nor(&nor);
    assert_eq!(noa.result_code(), Some(RESULT_CODE_SUCCESS));

    let sub = hss.subscribers.iter().find(|s| s.imsi == imsi).unwrap();
    assert!(sub.srvcc_supported);
    assert!(sub.ready_for_sm);
    assert_eq!(sub.current_imei.as_deref(), Some("860123456789012"));

    let nor_unk = S6aNorMessage::new_nor(
        "sess-nor-02",
        "mme01.epc.mnc001.mcc208.3gppnetwork.org",
        "epc.mnc001.mcc208.3gppnetwork.org",
        "hss01.epc.mnc001.mcc208.3gppnetwork.org",
        "epc.mnc001.mcc208.3gppnetwork.org",
        "999999999999999",
        0,
        None,
    );
    let noa_unk = hss.process_nor(&nor_unk);
    assert_eq!(noa_unk.result_code(), Some(RESULT_CODE_USER_UNKNOWN));
}

#[test]
fn notify_keeps_imei_when_none_sent() {
    let mut hss = S6aNorEngine::new("hss", "realm");
    hss.register_subscriber("1");
    hss.register_subscriber("1");
    assert_eq!(hss.subscribers.len(), 1);
    let first = S6aNorMessage::new_nor("a", "m", "r", "h", "r", "1", NOR_FLAG_SRVCC_SUPPORT, Some("35"));
    assert_eq!(first.imei(), Some("35"));
    assert_eq!(first.nor_flags(), Some(NOR_FLAG_SRVCC_SUPPORT));
    hss.process_nor(&first);
    let second = S6aNorMessage::new_nor("b", "m", "r", "h", "r", "1", NOR_FLAG_READY_FOR_SM, None);
    assert_eq!(second.imei(), None);
    hss.process_nor(&second);
    assert!(!hss.subscribers[0].srvcc_supported);
    assert!(hss.subscribers[0].ready_for_sm);
    assert_eq!(hss.subscribers[0].current_imei.as_deref(), Some("35"));
    assert_eq!(hss.total_nor_received, 2);
    assert_eq!(hss.total_nor_accepted, 2);
}
