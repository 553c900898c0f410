use lib::diameter::{DiameterMessage, DIAMETER_SUCCESS};
use lib::diameter_charging::{
    CcRequestType, CreditControlRequest, MsccContainer, OnlineChargingEngine, ServiceQuotaUnit,
    DIAMETER_CREDIT_LIMIT_REACHED, DIAMETER_USER_UNKNOWN,
};

fn result_code(msg: &DiameterMessage) -> u32 {
    msg.get_avp(268).unwrap().as_u32().unwrap()
}

fn msccs(msg: &DiameterMessage) -> Vec<MsccContainer> {
    msg.avps
        .iter()
        .filter(|a| a.code == 456)
        .map(|a| MsccContainer::parse_avp(a).unwrap())
        .collect()
}

#[test]
fn cc_request_type_codes() {
    assert_eq!(CcRequestType::from_u32(1), Some(CcRequestType::InitialRequest));
    assert_eq!(CcRequestType::from_u32(4), Some(CcRequestType::EventRequest));
    assert_eq!(CcRequestType::from_u32(0), None);
    assert_eq!(CcRequestType::from_u32(5), None);
    assert_eq!(CcRequestType::TerminationRequest.as_u32(), 3);
}

#[test]
fn mscc_avp_roundtrip() {
    let mut m = MsccContainer::new(10);
    m.granted_units = Some(ServiceQuotaUnit { total_octets: 0x1_0000_0001, time_seconds: 60 });
    m.used_units = Some(ServiceQuotaUnit { total_octets: 500, time_seconds: 7 });
    let avp = m.to_avp();
    assert_eq!(avp.code, 456);
    let back = MsccContainer::parse_avp(&avp).unwrap();
    assert_eq!(back.rating_group, 10);
    assert_eq!(back.result_code, DIAMETER_SUCCESS);
    assert_eq!(back.granted_units, Some(ServiceQuotaUnit { total_octets: 0x1_0000_0001, time_seconds: 60 }));
    // Used units carry no time on the wire.
    assert_eq!(back.used_units, Some(ServiceQuotaUnit { total_octets: 500, time_seconds: 0 }));

    let bare = MsccContainer::new(3);
    assert_eq!(MsccContainer::parse_avp(&bare.to_avp()), Some(bare));
}

#[test]
fn ccr_message_roundtrip_and_rejections() {
    let mut ccr = CreditControlRequest::new("sess;1", CcRequestType::UpdateRequest, 7, "imsi-001");
    let mut m = MsccContainer::new(1);
    m.used_units = Some(ServiceQuotaUnit { total_octets: 42, time_seconds: 0 });
    ccr.mscc.push(m);
    let msg = ccr.to_diameter_message(11, 22);
    assert!(msg.header.is_request());
    assert_eq!(msg.header.command_code, 272);
    assert_eq!(msg.header.application_id, 4);
    let back = CreditControlRequest::from_diameter_message(&msg).unwrap();
    assert_eq!(back, ccr);

    let mut answer = msg.clone();
    answer.header.flags = 0;
    assert!(CreditControlRequest::from_diameter_message(&answer).is_none());

    let mut no_sub = msg.clone();
    no_sub.avps.retain(|a| a.code != 444);
    assert_eq!(CreditControlRequest::from_diameter_message(&no_sub).unwrap().subscriber_id, "unknown");

    let mut bad_type = msg.clone();
    bad_type.avps[1] = lib::diameter::DiameterAvp::new_u32(416, 9);
    assert!(CreditControlRequest::from_diameter_message(&bad_type).is_none());
}

#[test]
fn ocs_session_lifecycle() {
    let mut ocs = OnlineChargingEngine::new(100);
    assert_eq!(ocs.default_grant_quota_octets, 1024);
    let mut ocs = OnlineChargingEngine::new(4000);
    ocs.provision_subscriber("alice", 10_000);
    ocs.provision_subscriber("alice", 1_000);
    assert_eq!(ocs.accounts.get("alice").unwrap().total_balance_octets, 11_000);

    // Unknown subscriber.
    let stranger = CreditControlRequest::new("s0", CcRequestType::InitialRequest, 0, "bob");
    let cca = ocs.process_ccr(&stranger);
    assert_eq!(result_code(&cca), DIAMETER_USER_UNKNOWN);
    assert!(!cca.header.is_request());

    // Initial: two services, grants of 4000 each.
    let mut init = CreditControlRequest::new("s1", CcRequestType::InitialRequest, 0, "alice");
    init.mscc.push(MsccContainer::new(1));
    init.mscc.push(MsccContainer::new(2));
    let cca = ocs.process_ccr(&init);
    assert_eq!(result_code(&cca), DIAMETER_SUCCESS);
    let answers = msccs(&cca);
    assert_eq!(answers.len(), 2);
    assert_eq!(answers[0].granted_units, Some(ServiceQuotaUnit { total_octets: 4000, time_seconds: 3600 }));
    assert_eq!(answers[1].granted_units.unwrap().total_octets, 4000);
    let acc = ocs.accounts.get("alice").unwrap();
    assert_eq!(acc.granted_reserved_octets, 8000);
    assert_eq!(acc.active_session.as_deref(), Some("s1"));

    // Update: 5000 used; balance 6000, reservation 3000, grant 3000 then limit reached.
    let mut upd = CreditControlRequest::new("s1", CcRequestType::UpdateRequest, 1, "alice");
    let mut used = MsccContainer::new(1);
    used.used_units = Some(ServiceQuotaUnit { total_octets: 5000, time_seconds: 0 });
    upd.mscc.push(used);
    upd.mscc.push(MsccContainer::new(2));
    let cca = ocs.process_ccr(&upd);
    let answers = msccs(&cca);
    assert_eq!(answers[0].granted_units.unwrap().total_octets, 3000);
    assert_eq!(answers[1].granted_units, None);
    assert_eq!(answers[1].result_code, DIAMETER_CREDIT_LIMIT_REACHED);
    let acc = ocs.accounts.get("alice").unwrap();
    assert_eq!(acc.total_balance_octets, 6000);
    assert_eq!(acc.consumed_octets, 5000);
    assert_eq!(acc.granted_reserved_octets, 6000);

    // Event: answered, nothing changes.
    let ev = CreditControlRequest::new("s1", CcRequestType::EventRequest, 2, "alice");
    let cca = ocs.process_ccr(&ev);
    assert_eq!(result_code(&cca), DIAMETER_SUCCESS);
    assert_eq!(ocs.accounts.get("alice").unwrap().granted_reserved_octets, 6000);

    // Termination: 1000 more used, reservation released.
    let mut term = CreditControlRequest::new("s1", CcRequestType::TerminationRequest, 3, "alice");
    let mut used = MsccContainer::new(1);
    used.used_units = Some(ServiceQuotaUnit { total_octets: 1000, time_seconds: 0 });
    term.mscc.push(used);
    let cca = ocs.process_ccr(&term);
    assert_eq!(result_code(&cca), DIAMETER_SUCCESS);
    assert!(msccs(&cca).is_empty());
    let acc = ocs.accounts.get("alice").unwrap();
    assert_eq!(acc.total_balance_octets, 5000);
    assert_eq!(acc.consumed_octets, 6000);
    assert_eq!(acc.granted_reserved_octets, 0);
    assert_eq!(acc.active_session, None);
}
