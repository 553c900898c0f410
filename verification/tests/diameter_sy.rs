use lib::diameter::{DiameterAvp, DiameterMessage};
use lib::diameter_sy::{
    OcsSyEngine, PcrfSyClient, PolicyCounterStatusReport, SlRequestType, SpendingLimitAnswer,
    SpendingLimitRequest, SpendingStatusNotificationAnswer, SpendingStatusNotificationRequest,
};

#[test]
fn sl_request_type_codes() {
    assert_eq!(SlRequestType::from_u32(0), SlRequestType::InitialRequest);
    assert_eq!(SlRequestType::from_u32(1), SlRequestType::IntermediateRequest);
    assert_eq!(SlRequestType::from_u32(5), SlRequestType::StopRequest);
    assert_eq!(SlRequestType::StopRequest.as_u32(), 2);
}

#[test]
fn report_avp_roundtrip() {
    let r = PolicyCounterStatusReport::new("data-cap", "exhausted");
    let avp = r.to_avp();
    assert_eq!(avp.code, 2903);
    assert_eq!(PolicyCounterStatusReport::from_avp(&avp), Some(r));
    // A group with a counter but no status is no report.
    let only = DiameterAvp::new_utf8(2901, "x").serialize();
    let grouped = DiameterAvp::new(2903, &only);
    assert_eq!(PolicyCounterStatusReport::from_avp(&grouped), None);
}

#[test]
fn slr_message_roundtrip() {
    let slr = SpendingLimitRequest::new("sy;1", SlRequestType::InitialRequest, "001010000000001")
        .with_counter("c1")
        .with_counter("c2");
    let msg = slr.to_diameter_message(5, 6);
    assert_eq!(msg.header.command_code, 8388635);
    assert_eq!(msg.header.application_id, 16777302);
    assert!(msg.header.is_request());
    assert_eq!(SpendingLimitRequest::from_diameter_message(&msg), Ok(slr));
}

#[test]
fn slr_missing_fields_are_errors() {
    let empty = DiameterMessage::new_request(8388635, 16777302, 1, 1);
    assert_eq!(SpendingLimitRequest::from_diameter_message(&empty), Err("Missing Session-Id".to_string()));
    let mut m = DiameterMessage::new_request(8388635, 16777302, 1, 1);
    m.add_avp(DiameterAvp::new_utf8(263, "s"));
    assert_eq!(SpendingLimitRequest::from_diameter_message(&m), Err("Missing SL-Request-Type".to_string()));
    m.add_avp(DiameterAvp::new_u32(2904, 2));
    let r = SpendingLimitRequest::from_diameter_message(&m).unwrap();
    assert_eq!(r.request_type, SlRequestType::StopRequest);
    assert_eq!(r.subscription_id, "");
    assert!(r.subscribed_counters.is_empty());
}

#[test]
fn sla_and_snr_roundtrip() {
    let sla = SpendingLimitAnswer::new("sy;1", 2001)
        .with_report(PolicyCounterStatusReport::new("c1", "valid"))
        .with_report(PolicyCounterStatusReport::new("c2", "exhausted"));
    let m = sla.to_diameter_message(1, 2);
    assert_eq!(m.header.flags, 0x40);
    assert_eq!(SpendingLimitAnswer::from_diameter_message(&m), Ok(sla));
    let mut no_rc = DiameterMessage::new_answer(8388635, 16777302, 1, 1);
    no_rc.add_avp(DiameterAvp::new_utf8(263, "s"));
    assert_eq!(SpendingLimitAnswer::from_diameter_message(&no_rc), Err("Missing Result-Code".to_string()));

    let snr = SpendingStatusNotificationRequest::new("sy;9").with_report(PolicyCounterStatusReport::new("c", "s"));
    let m = snr.to_diameter_message(3, 4);
    assert_eq!(m.header.command_code, 8388636);
    assert_eq!(SpendingStatusNotificationRequest::from_diameter_message(&m), Ok(snr));
    let sna = SpendingStatusNotificationAnswer::new("sy;9", 2001).to_diameter_message(3, 4);
    assert_eq!(sna.avps.len(), 2);
    assert_eq!(sna.get_avp(268).unwrap().as_u32(), Some(2001));
}

#[test]
fn ocs_reports_known_counters() {
    let mut ocs = OcsSyEngine::new();
    ocs.set_counter_status("imsi-1", "c1", "valid");
    ocs.set_counter_status("imsi-1", "c2", "exhausted");
    let slr = SpendingLimitRequest::new("s1", SlRequestType::InitialRequest, "imsi-1")
        .with_counter("c2")
        .with_counter("c9")
        .with_counter("c1");
    let sla = ocs.handle_slr(&slr);
    assert_eq!(sla.result_code, 2001);
    assert_eq!(
        sla.reports,
        vec![
            PolicyCounterStatusReport::new("c2", "exhausted"),
            PolicyCounterStatusReport::new("c1", "valid"),
        ]
    );
    assert_eq!(ocs.active_session_count(), 1);
    let stop = SpendingLimitRequest::new("s1", SlRequestType::StopRequest, "imsi-1");
    let sla = ocs.handle_slr(&stop);
    assert!(sla.reports.is_empty());
    assert_eq!(ocs.active_session_count(), 0);
}

#[test]
fn ocs_notifies_following_sessions() {
    let mut ocs = OcsSyEngine::new();
    ocs.handle_slr(&SpendingLimitRequest::new("all", SlRequestType::InitialRequest, "imsi-1"));
    ocs.handle_slr(&SpendingLimitRequest::new("c1", SlRequestType::InitialRequest, "imsi-1").with_counter("c1"));
    ocs.handle_slr(&SpendingLimitRequest::new("c2", SlRequestType::InitialRequest, "imsi-1").with_counter("c2"));
    ocs.handle_slr(&SpendingLimitRequest::new("other", SlRequestType::InitialRequest, "imsi-2"));
    let mut snrs = ocs.update_counter_and_notify("imsi-1", "c1", "exhausted");
    snrs.sort_by(|a, b| a.session_id.cmp(&b.session_id));
    let ids: Vec<&str> = snrs.iter().map(|s| s.session_id.as_str()).collect();
    assert_eq!(ids, vec!["all", "c1"]);
    for s in &snrs {
        assert_eq!(s.reports, vec![PolicyCounterStatusReport::new("c1", "exhausted")]);
    }
    assert!(ocs.unsubscribe_counter("c1", "c1"));
    assert!(!ocs.unsubscribe_counter("c1", "c1"));
    assert!(!ocs.unsubscribe_counter("nope", "c1"));
    // An emptied subscription follows every counter again.
    let snrs = ocs.update_counter_and_notify("imsi-1", "c7", "x");
    assert_eq!(snrs.len(), 2);
    assert!(ocs.terminate_session("all"));
    assert!(!ocs.terminate_session("all"));
}

#[test]
fn pcrf_client_caches_status() {
    let mut pcrf = PcrfSyClient::new();
    let slr = pcrf.create_initial_slr("s1", "imsi-1", &["c1", "c2"]);
    assert_eq!(slr.request_type, SlRequestType::InitialRequest);
    assert_eq!(slr.subscribed_counters, vec!["c1".to_string(), "c2".to_string()]);
    assert_eq!(pcrf.active_session_count(), 1);
    assert_eq!(pcrf.get_counter_status("s1", "c1"), None);
    let sla = SpendingLimitAnswer::new("s1", 2001).with_report(PolicyCounterStatusReport::new("c1", "valid"));
    pcrf.process_sla(&sla);
    assert_eq!(pcrf.get_counter_status("s1", "c1"), Some("valid"));
    // A failed answer changes nothing.
    let bad = SpendingLimitAnswer::new("s1", 5003).with_report(PolicyCounterStatusReport::new("c1", "bad"));
    pcrf.process_sla(&bad);
    assert_eq!(pcrf.get_counter_status("s1", "c1"), Some("valid"));
    let snr = SpendingStatusNotificationRequest::new("s1")
        .with_report(PolicyCounterStatusReport::new("c1", "exhausted"))
        .with_report(PolicyCounterStatusReport::new("c1", "final"));
    let sna = pcrf.process_snr(&snr);
    assert_eq!(sna.result_code, 2001);
    assert_eq!(pcrf.get_counter_status("s1", "c1"), Some("final"));
    let mid = pcrf.create_intermediate_slr("s1", "imsi-1", &["c3"]);
    assert_eq!(mid.request_type, SlRequestType::IntermediateRequest);
    assert!(pcrf.terminate_session("s1"));
    assert!(!pcrf.terminate_session("s1"));
    assert_eq!(pcrf.active_session_count(), 0);
}
