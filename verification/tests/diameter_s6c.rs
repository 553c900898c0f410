use lib::diameter_s6c::{
    S6cAvp, S6cHssEngine, S6cMessage, S6cServingNodeInfo, S6cServingNodeType,
    DIAMETER_APPLICATION_S6C, DIAMETER_CMD_SEND_ROUTING_INFO_FOR_SM,
};
use lib::net::Ipv4Address;

#[test]
fn test_diameter_s6c_srr_and_rdr() {
    let mut hss = S6cHssEngine::new("hss.epc.mnc001.mcc460.3gppnetwork.org");
    let serving_mme = S6cServingNodeInfo {
        node_type: S6cServingNodeType::Mme,
        node_fqdn: "mme01.epc.operator.com".to_string(),
        node_ip: Ipv4Address::new(10, 20, 30, 40),
    };
    hss.register_subscriber_location("886912345678", serving_mme.clone());

    let srr = S6cMessage::new_srr("s6c-sess-01", "886912345678");
    assert_eq!(srr.application_id, DIAMETER_APPLICATION_S6C);
    assert_eq!(srr.command_code, DIAMETER_CMD_SEND_ROUTING_INFO_FOR_SM);

    let sra = hss.handle_srr(&srr);
    assert!(!sra.is_request);
    let rc = sra.avps.iter().find_map(|a| if let S6cAvp::ResultCode(c) = a { Some(*c) } else { None });
    assert_eq!(rc, Some(2001));

    let node = sra.avps.iter().find_map(|a| if let S6cAvp::ServingNode(n) = a { Some(n.clone()) } else { None });
    assert_eq!(node, Some(serving_mme));
    assert_eq!(hss.total_srr_requests, 1);

    let rdr = S6cMessage::new_rdr("s6c-sess-02", "886912345678", 0);
    let rda = hss.handle_rdr(&rdr);
    let rc_rdr = rda.avps.iter().find_map(|a| if let S6cAvp::ResultCode(c) = a { Some(*c) } else { None });
    assert_eq!(rc_rdr, Some(2001));
    assert_eq!(hss.total_rdr_reports, 1);
}

#[test]
fn s6c_unknown_user() {
    let mut hss = S6cHssEngine::new("h");
    let sra = hss.handle_srr(&S6cMessage::new_srr("s", "404"));
    assert_eq!(sra.avps, vec![S6cAvp::ResultCode(5001)]);
    assert_eq!(sra.session_id, "s");
}
