use lib::diameter_s6b::{
    AaaS6bEngine, Mip6AgentInfo, Non3gppSubProfile, Non3gppUserStatus, S6bAvp, S6bMessage,
    DIAMETER_CMD_AA, DIAMETER_CMD_SESSION_TERMINATION,
};

#[test]
fn test_s6b_aar_aaa_success_flow() {
    let mut aaa_server = AaaS6bEngine::new("aaa.epc.example.com");
    aaa_server.provision_subscriber(Non3gppSubProfile {
        imsi: "208950123456789".into(),
        authorized_anid: vec!["WLAN".into(), "HRPD".into()],
        allocated_pgw_ip: [10, 100, 1, 1],
        allocated_pgw_fqdn: "pgw01.epc.example.com".into(),
        apn: "ims.vowifi.com".into(),
        status: Non3gppUserStatus::UserDeregistered,
    });

    let mut aar = S6bMessage::new_request(DIAMETER_CMD_AA, "s6b-session-999");
    aar.add_avp(S6bAvp::UserName("208950123456789".into()));
    aar.add_avp(S6bAvp::Anid("WLAN".into()));

    let ans = aaa_server.handle_aar(&aar);
    assert_eq!(ans.command_code, DIAMETER_CMD_AA);
    assert!(!ans.is_request);

    let rc = ans.avps.iter().find_map(|a| if let S6bAvp::ResultCode(c) = a { Some(*c) } else { None });
    assert_eq!(rc, Some(2001));

    let agent = ans.avps.iter().find_map(|a| if let S6bAvp::Mip6AgentInfo(info) = a { Some(info.clone()) } else { None });
    assert!(agent.is_some());
    let info = agent.unwrap();
    assert_eq!(info.pgw_ip, [10, 100, 1, 1]);
    assert_eq!(info.pgw_fqdn, "pgw01.epc.example.com");
}

#[test]
fn test_s6b_unauthorized_anid_rejection() {
    let mut aaa_server = AaaS6bEngine::new("aaa.epc.example.com");
    aaa_server.provision_subscriber(Non3gppSubProfile {
        imsi: "208950123456789".into(),
        authorized_anid: vec!["WLAN".into()],
        allocated_pgw_ip: [10, 100, 1, 1],
        allocated_pgw_fqdn: "pgw01.epc.example.com".into(),
        apn: "internet".into(),
        status: Non3gppUserStatus::UserDeregistered,
    });

    let mut aar = S6bMessage::new_request(DIAMETER_CMD_AA, "s6b-session-998");
    aar.add_avp(S6bAvp::UserName("208950123456789".into()));
    aar.add_avp(S6bAvp::Anid("CDMA2000_1xRTT".into()));

    let ans = aaa_server.handle_aar(&aar);
    let rc = ans.avps.iter().find_map(|a| if let S6bAvp::ResultCode(c) = a { Some(*c) } else { None });
    assert_eq!(rc, Some(5003));
}

#[test]
fn test_s6b_str_sta_termination() {
    let mut aaa_server = AaaS6bEngine::new("aaa.epc.example.com");
    aaa_server.provision_subscriber(Non3gppSubProfile {
        imsi: "208950000000001".into(),
        authorized_anid: vec![],
        allocated_pgw_ip: [10, 0, 0, 1],
        allocated_pgw_fqdn: "pgw01".into(),
        apn: "ims".into(),
        status: Non3gppUserStatus::UserDeregistered,
    });

    let mut aar = S6bMessage::new_request(DIAMETER_CMD_AA, "sess-01");
    aar.add_avp(S6bAvp::UserName("208950000000001".into()));
    aaa_server.handle_aar(&aar);

    assert_eq!(aaa_server.subscribers.get("208950000000001").unwrap().status, Non3gppUserStatus::UserActive);

    let str_msg = S6bMessage::new_request(DIAMETER_CMD_SESSION_TERMINATION, "sess-01");
    let sta = aaa_server.handle_str(&str_msg);
    let rc = sta.avps.iter().find_map(|a| if let S6bAvp::ResultCode(c) = a { Some(*c) } else { None });
    assert_eq!(rc, Some(2001));
    assert_eq!(aaa_server.subscribers.get("208950000000001").unwrap().status, Non3gppUserStatus::UserDeregistered);
}

#[test]
fn s6b_codec_and_errors() {
    let info = Mip6AgentInfo { pgw_ip: [1, 2, 3, 4], pgw_fqdn: "gw".to_string() };
    let b = info.serialize();
    assert_eq!(b, vec![0, 0, 1, 235, 0, 4, 1, 2, 3, 4, 0, 0, 1, 234, 0, 2, b'g', b'w']);
    assert_eq!(Mip6AgentInfo::parse(&b), Some(info));
    assert_eq!(Mip6AgentInfo::parse(&[]), Some(Mip6AgentInfo { pgw_ip: [0, 0, 0, 0], pgw_fqdn: String::new() }));
    let mut m = S6bMessage::new_request(265, "s");
    m.add_avp(S6bAvp::ResultCode(7));
    assert_eq!(m.serialize(), vec![0, 0, 1, 9, 0x80, 1, 0, 0, 0x38, 0, 1, b's', 0, 0, 1, 12, 0, 4, 0, 0, 0, 7]);
    let mut server = AaaS6bEngine::new("r");
    let none = server.handle_aar(&S6bMessage::new_request(265, "x"));
    assert_eq!(none.avps, vec![S6bAvp::ResultCode(5004)]);
    let mut unknown = S6bMessage::new_request(265, "x");
    unknown.add_avp(S6bAvp::UserName("9".into()));
    assert_eq!(server.handle_aar(&unknown).avps, vec![S6bAvp::ResultCode(5001)]);
    let sta = server.handle_str(&S6bMessage::new_request(275, "nope"));
    assert_eq!(sta.avps, vec![S6bAvp::ResultCode(5002)]);
    assert_eq!(Non3gppUserStatus::from_u32(2), Some(Non3gppUserStatus::UserDeregistered));
    assert_eq!(Non3gppUserStatus::from_u32(3), None);
    assert_eq!(Non3gppUserStatus::UserSuspended.as_u32(), 1);
}
