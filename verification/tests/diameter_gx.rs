use lib::diameter::DiameterAvp;
use lib::diameter_charging::CcRequestType;
use lib::diameter_gx::{
    contains_bytes, GxCreditControlRequest, GxReAuthAnswer, GxReAuthRequest, IpCanType, PccRule,
    PcefGxEngine, PcrfGxEngine, AVP_CHARGING_RULE_INSTALL,
};

fn voice_rule() -> PccRule {
    let mut r = PccRule::new("rule-volte", 1, 64_000, 64_000);
    r.flow_descriptions.push("permit out udp from 10.1.1.1 to 10.2.2.2 4000".to_string());
    r
}

#[test]
fn ip_can_type_codes() {
    assert_eq!(IpCanType::from_u32(5), IpCanType::ThreeGppEps);
    assert_eq!(IpCanType::from_u32(7), IpCanType::ThreeGpp5Gs);
    assert_eq!(IpCanType::from_u32(3), IpCanType::NonThreeGpp);
    assert_eq!(IpCanType::ThreeGppGprs.as_u32(), 0);
}

#[test]
fn pcc_rule_avp_roundtrip() {
    let r = voice_rule();
    let avp = r.to_grouped_avp();
    assert_eq!(avp.code, 1003);
    assert_eq!(avp.vendor_id, Some(10415));
    assert_eq!(PccRule::from_grouped_avp(&avp), Some(r));
    // No name: no rule.
    let empty = DiameterAvp::new_vendor(1003, 0xC0, 10415, &[]);
    assert_eq!(PccRule::from_grouped_avp(&empty), None);
}

#[test]
fn rar_and_raa_messages() {
    let rar = GxReAuthRequest {
        session_id: "gx;1".to_string(),
        origin_host: "pcrf".to_string(),
        origin_realm: "realm".to_string(),
        destination_host: "pgw".to_string(),
        destination_realm: "realm2".to_string(),
        rules_to_install: vec![voice_rule()],
        rules_to_remove: vec!["rule-old".to_string()],
        event_triggers: vec![2, 13],
    };
    let msg = rar.to_diameter_message(1, 2);
    assert!(msg.header.is_request());
    assert_eq!(msg.header.command_code, 258);
    assert_eq!(GxReAuthRequest::from_diameter_message(&msg), Some(rar));

    let raa = GxReAuthAnswer {
        session_id: "gx;1".to_string(),
        result_code: 2001,
        origin_host: "pgw".to_string(),
        origin_realm: "r".to_string(),
    };
    assert_eq!(GxReAuthAnswer::from_diameter_message(&raa.to_diameter_message(1, 2)), Some(raa));
    let ccr = GxCreditControlRequest::new("s", CcRequestType::InitialRequest, 0, "imsi", IpCanType::ThreeGppEps);
    let m = ccr.to_diameter_message(3, 4);
    assert!(GxReAuthAnswer::from_diameter_message(&m).is_some());
    assert_eq!(m.get_avp(1027).unwrap().as_u32(), Some(5));
}

#[test]
fn pcef_rules_and_enforcement() {
    let mut pcef = PcefGxEngine::new("realm");
    let cca = pcef.handle_session_establishment("s1", "imsi-1", IpCanType::ThreeGpp5Gs);
    assert_eq!(cca.avps.iter().filter(|a| a.code == AVP_CHARGING_RULE_INSTALL).count(), 2);
    assert_eq!(pcef.installed_rules.get("s1").unwrap().len(), 2);

    let hit = pcef.enforce_traffic("s1", "udp 1.2.3.4", 100).unwrap();
    assert_eq!(hit.rule_name, "rule-default-internet");
    assert_eq!(pcef.total_enforced_bytes, 100);
    assert!(pcef.enforce_traffic("nope", "x", 1).is_none());

    assert!(pcef.install_rule("s1", voice_rule()));
    assert!(pcef.install_rule("s1", voice_rule()));
    assert_eq!(pcef.installed_rules.get("s1").unwrap().len(), 3);
    assert!(!pcef.install_rule("s2", voice_rule()));
    assert!(pcef.remove_rule("s1", "rule-volte"));
    assert!(!pcef.remove_rule("s1", "rule-volte"));

    let rar = GxReAuthRequest {
        session_id: "s1".to_string(),
        origin_host: String::new(),
        origin_realm: String::new(),
        destination_host: String::new(),
        destination_realm: String::new(),
        rules_to_install: vec![voice_rule()],
        rules_to_remove: vec!["rule-default-internet".to_string()],
        event_triggers: vec![],
    };
    let raa = pcef.handle_rar(&rar, "pgw", "realm");
    assert_eq!(raa.result_code, 2001);
    let names: Vec<String> = pcef.installed_rules.get("s1").unwrap().iter().map(|r| r.rule_name.clone()).collect();
    assert_eq!(names, vec!["rule-ims-signalling".to_string(), "rule-volte".to_string()]);
    // Flow description contained in the flow.
    let hit = pcef.enforce_traffic("s1", "permit out udp from any to 10.0.0.1 5060 extra", 5).unwrap();
    assert_eq!(hit.rule_name, "rule-ims-signalling");

    let mut unknown = rar.clone();
    unknown.session_id = "zz".to_string();
    assert_eq!(pcef.handle_rar(&unknown, "pgw", "realm").result_code, 5002);
    assert!(pcef.handle_session_termination("s1"));
    assert!(!pcef.handle_session_termination("s1"));
}

#[test]
fn pcrf_sessions_and_rar() {
    let mut pcrf = PcrfGxEngine::new("pcrf.example", "example");
    let ccr = GxCreditControlRequest::new("s9", CcRequestType::InitialRequest, 0, "imsi-9", IpCanType::NonThreeGpp);
    let (cca, rules) = pcrf.handle_ccr_initial(&ccr);
    assert_eq!(rules.len(), 1);
    assert_eq!(cca.get_avp(415).unwrap().as_u32(), Some(0));
    assert_eq!(pcrf.active_session_count(), 1);

    let rar = pcrf.push_rar("s9", "pgw", "r", vec![voice_rule()], vec!["rule-default-internet".to_string()]).unwrap();
    assert_eq!(rar.origin_host, "pcrf.example");
    assert_eq!(rar.rules_to_install.len(), 1);
    let st = pcrf.sessions.get("s9").unwrap();
    assert_eq!(st.active_rules.len(), 1);
    assert_eq!(st.active_rules[0].rule_name, "rule-volte");
    assert!(pcrf.push_rar("none", "a", "b", vec![], vec![]).is_none());
    assert!(pcrf.terminate_session("s9"));
    assert_eq!(pcrf.active_session_count(), 0);
}

#[test]
fn substring_search() {
    assert!(contains_bytes(b"permit any to any", b"any to any"));
    assert!(contains_bytes(b"abc", b""));
    assert!(!contains_bytes(b"ab", b"abc"));
    assert!(!contains_bytes(b"abcab", b"bb"));
}
