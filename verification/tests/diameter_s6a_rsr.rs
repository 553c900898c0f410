use lib::diameter_s6a_rsr::{S6aRsrEngine, S6aRsrMessage, RESULT_CODE_SUCCESS};

#[test]
fn test_targeted_reset() {
    let mut engine = S6aRsrEngine::new(
        "mme01.epc.mnc001.mcc208.3gppnetwork.org",
        "epc.mnc001.mcc208.3gppnetwork.org",
    );
    engine.provision_subscriber("460011111111111");
    engine.provision_subscriber("460022222222222");

    let rsr = S6aRsrMessage::new_rsr(
        "sess-rsr-001",
        "hss01.epc.mnc001.mcc208.3gppnetwork.org",
        "epc.mnc001.mcc208.3gppnetwork.org",
        "mme01.epc.mnc001.mcc208.3gppnetwork.org",
        "epc.mnc001.mcc208.3gppnetwork.org",
        &["460011111111111"],
    );

    let rsa = engine.process_rsr(&rsr);
    assert_eq!(rsa.result_code(), Some(RESULT_CODE_SUCCESS));
    assert!(engine.needs_resync("460011111111111"));
    assert!(!engine.needs_resync("460022222222222"));
}

#[test]
fn test_global_reset() {
    let mut engine = S6aRsrEngine::new("mme01", "realm");
    engine.provision_subscriber("46001");
    engine.provision_subscriber("46002");

    let rsr = S6aRsrMessage::new_rsr("sess-rsr-002", "hss01", "realm", "mme01", "realm", &[]);
    let rsa = engine.process_rsr(&rsr);
    assert_eq!(rsa.result_code(), Some(RESULT_CODE_SUCCESS));
    assert!(engine.needs_resync("46001"));
    assert!(engine.needs_resync("46002"));
}

#[test]
fn reset_counts_marks_time_and_clears() {
    let mut engine = S6aRsrEngine::new("mme", "realm");
    engine.provision_subscriber("a");
    engine.provision_subscriber("b");
    engine.provision_subscriber("a");
    assert_eq!(engine.subscribers.len(), 2);
    engine.advance_clock(77);
    let rsr = S6aRsrMessage::new_rsr("s", "hss", "realm", "mme", "realm", &["b", "zz"]);
    assert_eq!(rsr.user_ids(), vec!["b", "zz"]);
    let rsa = engine.process_rsr(&rsr);
    assert!(!rsa.is_request);
    assert_eq!(rsa.session_id, "s");
    assert_eq!(engine.total_rsr_received, 1);
    assert_eq!(engine.total_subscribers_reset, 1);
    assert_eq!(engine.subscribers[1].marked_at_ns, 77);
    assert!(engine.clear_resync("b"));
    assert!(!engine.needs_resync("b"));
    assert!(!engine.clear_resync("nobody"));
    assert!(!engine.needs_resync("nobody"));
}
