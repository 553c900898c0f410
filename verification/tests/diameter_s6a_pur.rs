use lib::diameter_s6a_pur::{
    S6aPurEngine, S6aPurMessage, PUA_FLAG_FREEZE_M_TMSI, PUA_FLAG_FREEZE_P_TMSI, RESULT_CODE_SUCCESS,
    RESULT_CODE_USER_UNKNOWN,
};

#[test]
fn test_purge_known_subscriber() {
    let mut engine = S6aPurEngine::new();
    engine.add_subscriber("262011234567890");
    engine.advance_clock(1_000_000);

    let pur = S6aPurMessage::new_pur("session-pur-001", "262011234567890", PUA_FLAG_FREEZE_M_TMSI);
    let pua = engine.process_pur(&pur);
    assert!(!pua.is_request);
    assert_eq!(pua.result_code(), Some(RESULT_CODE_SUCCESS));
    assert!(!engine.is_attached("262011234567890"));
    assert_eq!(engine.purge_log().len(), 1);
    assert_eq!(engine.purge_log()[0].flags, PUA_FLAG_FREEZE_M_TMSI);
}

#[test]
fn test_purge_unknown_subscriber() {
    let mut engine = S6aPurEngine::new();
    let pur = S6aPurMessage::new_pur("session-pur-002", "999990000000001", 0);
    let pua = engine.process_pur(&pur);
    assert_eq!(pua.result_code(), Some(RESULT_CODE_USER_UNKNOWN));
    assert_eq!(engine.purge_log().len(), 0);
}

#[test]
fn purge_records_clock_and_echoes_session() {
    let mut engine = S6aPurEngine::new();
    engine.add_subscriber("001010000000001");
    engine.add_subscriber("001010000000001");
    assert!(engine.is_known("001010000000001"));
    assert!(engine.is_attached("001010000000001"));
    engine.advance_clock(u64::MAX);
    engine.advance_clock(5);
    let pur = S6aPurMessage::new_pur("s-9", "001010000000001", PUA_FLAG_FREEZE_P_TMSI);
    assert_eq!(pur.imsi(), Some("001010000000001"));
    assert_eq!(pur.pua_flags(), PUA_FLAG_FREEZE_P_TMSI);
    let pua = engine.process_pur(&pur);
    assert_eq!(pua.session_id(), Some("s-9"));
    assert_eq!(pua.pua_flags(), PUA_FLAG_FREEZE_P_TMSI);
    assert_eq!(engine.purge_log()[0].purged_at_ns, u64::MAX);
    assert!(engine.purge_log()[0].context_released);
    let bare = S6aPurMessage { command_code: 321, application_id: 16_777_251, is_request: true, avps: vec![] };
    let ans = engine.process_pur(&bare);
    assert_eq!(ans.session_id(), Some("unknown"));
    assert_eq!(ans.result_code(), Some(RESULT_CODE_USER_UNKNOWN));
    assert_eq!(ans.pua_flags(), 0);
}
