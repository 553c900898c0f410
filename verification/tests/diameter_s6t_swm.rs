use lib::diameter_s6t::{
    MonitoringEventConfig, MonitoringEventType, S6tAvp, S6tMessage, ScefS6tHssEngine,
    DIAMETER_APPLICATION_S6T, DIAMETER_CMD_CONFIGURATION_INFORMATION,
};
use lib::diameter_swm::{AaaSwmEngine, SwmAvp, SwmMessage, DIAMETER_CMD_EAP};

#[test]
fn test_diameter_s6t_monitoring_event_config() {
    let mut hss = ScefS6tHssEngine::new("hss.ciot.operator.com");

    let config = MonitoringEventConfig {
        scef_id: "scef01.iot.net".to_string(),
        scef_ref_id: 8881,
        event_type: MonitoringEventType::UeReachability,
    };

    let cir = S6tMessage::new_cir("s6t-sess-01", "460041234567890", config.clone());
    assert_eq!(cir.application_id, DIAMETER_APPLICATION_S6T);
    assert_eq!(cir.command_code, DIAMETER_CMD_CONFIGURATION_INFORMATION);

    let cia = hss.handle_cir(&cir);
    assert!(!cia.is_request);
    let rc = cia.avps.iter().find_map(|a| if let S6tAvp::ResultCode(c) = a { Some(*c) } else { None });
    assert_eq!(rc, Some(2001));

    let events = hss.user_monitoring_events.get("460041234567890").unwrap();
    assert_eq!(events.len(), 1);
    assert_eq!(events[0], config);
    assert_eq!(hss.total_cir_requests, 1);
}

#[test]
fn s6t_appends_and_rejects_missing_config() {
    let mut hss = ScefS6tHssEngine::new("h");
    let c = MonitoringEventConfig { scef_id: "a".into(), scef_ref_id: 1, event_type: MonitoringEventType::RoamingStatus };
    hss.handle_cir(&S6tMessage::new_cir("1", "u", c.clone()));
    hss.handle_cir(&S6tMessage::new_cir("2", "u", c.clone()));
    assert_eq!(hss.user_monitoring_events.get("u").unwrap().len(), 2);
    let bare = S6tMessage { command_code: 1, is_request: true, application_id: 2, session_id: "x".into(), avps: vec![] };
    assert_eq!(hss.handle_cir(&bare).avps, vec![S6tAvp::ResultCode(5004)]);
}

#[test]
fn test_swm_eap_aka_prime_authentication_flow() {
    let mut aaa = AaaSwmEngine::new("aaa.epc.example.com");
    aaa.provision_subscriber("208950999999999", vec![0xAB, 0xCD, 0xEF, 0x12]);

    let eap_response_payload = vec![0x02, 0x01, 0x00, 0x08, 0x32, 0x00, 0x00, 0x00];
    let der = SwmMessage::new_der("swm-session-001", "208950999999999", "WLAN", eap_response_payload);

    let dea = aaa.handle_der(&der);
    assert_eq!(dea.command_code, DIAMETER_CMD_EAP);
    assert!(!dea.is_request);

    let rc = dea.avps.iter().find_map(|a| if let SwmAvp::ResultCode(c) = a { Some(*c) } else { None });
    assert_eq!(rc, Some(2001));

    let msk = dea.avps.iter().find_map(|a| if let SwmAvp::EapMasterSessionKey(k) = a { Some(k.clone()) } else { None });
    assert!(msk.is_some());
    assert_eq!(msk.unwrap().len(), 64);
    assert_eq!(aaa.successful_authentications, 1);
}

#[test]
fn test_swm_unknown_user_rejection() {
    let mut aaa = AaaSwmEngine::new("aaa.epc.example.com");
    let der = SwmMessage::new_der("swm-session-002", "000000000000000", "WLAN", vec![0x02, 0x01, 0x00, 0x04]);
    let dea = aaa.handle_der(&der);
    let rc = dea.avps.iter().find_map(|a| if let SwmAvp::ResultCode(c) = a { Some(*c) } else { None });
    assert_eq!(rc, Some(5001));
    assert_eq!(aaa.failed_authentications, 1);
}

#[test]
fn swm_msk_values_and_rejections() {
    let mut aaa = AaaSwmEngine::new("r");
    aaa.provision_subscriber("1", vec![0xFF]);
    let ctx = aaa.subscribers.get("1").unwrap();
    assert_eq!(ctx.msk[0], 0x5A ^ 0xFF);
    assert_eq!(ctx.msk[1], 0x61 ^ 0xFF);
    assert!(!ctx.authenticated);
    let req = SwmMessage::new_der("s", "1", "WLAN", vec![0x01, 0x07]);
    assert_eq!(aaa.handle_der(&req).avps, vec![SwmAvp::ResultCode(5003)]);
    let ok = aaa.handle_der(&SwmMessage::new_der("s2", "1", "WLAN", vec![0x02, 0x07]));
    assert_eq!(ok.avps[1], SwmAvp::EapPayload(vec![3, 7, 0, 4]));
    assert!(aaa.subscribers.get("1").unwrap().authenticated);
    assert_eq!(aaa.active_sessions.get("s2").map(|s| s.as_str()), Some("1"));
    let bare = SwmMessage { command_code: 268, is_request: true, application_id: 1, session_id: "b".into(), avps: vec![] };
    assert_eq!(aaa.handle_der(&bare).avps, vec![SwmAvp::ResultCode(5004)]);
}
