use lib::diameter_sgd::{
    SgdAvp, SgdMessage, SmDeliveryOutcome, SmsSgdEngine, DIAMETER_APPLICATION_SGD,
    DIAMETER_CMD_MO_FORWARD_SM,
};

#[test]
fn test_sgd_mo_sms_delivery() {
    let mut engine = SmsSgdEngine::new("+886912345678");
    let tpdu = b"Hello from 5G UE!".to_vec();

    let ofr = SgdMessage::new_ofr("sess-sgd-01", "460011234567890", "+886912345678", tpdu.clone());
    assert_eq!(ofr.application_id, DIAMETER_APPLICATION_SGD);
    assert_eq!(ofr.command_code, DIAMETER_CMD_MO_FORWARD_SM);

    let ofa = engine.handle_mo_forward_sm(&ofr);
    assert!(!ofa.is_request);

    let rc = ofa.avps.iter().find_map(|a| if let SgdAvp::ResultCode(c) = a { Some(*c) } else { None });
    assert_eq!(rc, Some(2001));
    assert_eq!(engine.total_mo_sms, 1);
    assert_eq!(engine.messages.len(), 1);
    assert_eq!(engine.messages.get(&1).unwrap().tpdu, tpdu);
}

#[test]
fn test_sgd_mt_sms_absent_subscriber() {
    let mut engine = SmsSgdEngine::new("+886912345678");
    let tfr = SgdMessage::new_tfr("sess-sgd-02", "460019999999999", "+886912345678", vec![0x00, 0x01]);
    let tfa = engine.handle_mt_forward_sm(&tfr, false);

    let outcome = tfa.avps.iter().find_map(|a| if let SgdAvp::SmDeliveryOutcome(o) = a { Some(*o) } else { None });
    assert_eq!(outcome, Some(SmDeliveryOutcome::AbsentSubscriber));
}

#[test]
fn sgd_ids_and_reachable_delivery() {
    let mut engine = SmsSgdEngine::new("smsc");
    let empty = SgdMessage { command_code: 1, is_request: true, application_id: 2, session_id: "e".into(), avps: vec![] };
    engine.handle_mo_forward_sm(&empty);
    engine.handle_mo_forward_sm(&SgdMessage::new_ofr("s", "9", "c", vec![7]));
    assert_eq!(engine.next_msg_id, 3);
    let first = engine.messages.get(&1).unwrap();
    assert_eq!(first.imsi, "");
    assert!(first.tpdu.is_empty());
    assert_eq!(engine.messages.get(&2).unwrap().sc_address, "c");
    let tfa = engine.handle_mt_forward_sm(&SgdMessage::new_tfr("t", "9", "c", vec![]), true);
    assert_eq!(tfa.avps, vec![SgdAvp::ResultCode(2001), SgdAvp::SmDeliveryOutcome(SmDeliveryOutcome::Success)]);
}
