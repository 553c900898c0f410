use lib::diameter_cx::{
    CxAvp, CxMessage, HssCxEngine, ImsSub, ServerAssignmentType, UserAuthorizationType, CMD_MAR,
    CMD_SAR, CMD_UAR,
};

#[test]
fn test_cx_uar_uaa_flow() {
    let mut hss = HssCxEngine::new();
    hss.add_subscriber(ImsSub {
        public_identity: "sip:alice@ims.example.com".into(),
        private_identity: "alice@ims.example.com".into(),
        assigned_scscf: Some("sip:scscf1.ims.example.com".into()),
        auth_scheme: "Digest-AKAv1-MD5".into(),
        auth_key: vec![0xAA; 16],
    });

    let mut uar = CxMessage::new_request(CMD_UAR, "cx-sess-001");
    uar.add_avp(CxAvp::PublicIdentity("sip:alice@ims.example.com".into()));
    uar.add_avp(CxAvp::UserAuthorizationType(UserAuthorizationType::Registration));

    let uaa = hss.process_uar(&uar);
    assert!(!uaa.is_request);
    let has_server = uaa.avps.iter().any(|a| matches!(a, CxAvp::ServerName(_)));
    assert!(has_server);
}

#[test]
fn test_cx_mar_maa_auth_vector() {
    let mut hss = HssCxEngine::new();
    hss.add_subscriber(ImsSub {
        public_identity: "sip:bob@ims.example.com".into(),
        private_identity: "bob@ims.example.com".into(),
        assigned_scscf: None,
        auth_scheme: "Digest-AKAv1-MD5".into(),
        auth_key: vec![0xBB; 16],
    });

    let mut mar = CxMessage::new_request(CMD_MAR, "cx-sess-002");
    mar.add_avp(CxAvp::PublicIdentity("sip:bob@ims.example.com".into()));

    let maa = hss.process_mar(&mar);
    let auth_item = maa.avps.iter().find_map(|a| {
        if let CxAvp::SipAuthDataItem { auth_scheme, auth_data } = a {
            Some((auth_scheme.clone(), auth_data.clone()))
        } else {
            None
        }
    });
    assert!(auth_item.is_some());
    let (scheme, key) = auth_item.unwrap();
    assert_eq!(scheme, "Digest-AKAv1-MD5");
    assert_eq!(key.len(), 16);
}

#[test]
fn test_cx_sar_saa_server_assignment() {
    let mut hss = HssCxEngine::new();
    hss.add_subscriber(ImsSub {
        public_identity: "sip:carol@ims.example.com".into(),
        private_identity: "carol@ims.example.com".into(),
        assigned_scscf: None,
        auth_scheme: "Digest-AKAv1-MD5".into(),
        auth_key: vec![0xCC; 16],
    });

    let mut sar = CxMessage::new_request(CMD_SAR, "cx-sess-003");
    sar.add_avp(CxAvp::PublicIdentity("sip:carol@ims.example.com".into()));
    sar.add_avp(CxAvp::ServerName("sip:scscf2.ims.example.com".into()));
    sar.add_avp(CxAvp::ServerAssignmentType(ServerAssignmentType::Registration));

    let saa = hss.process_sar(&sar);
    let server = saa.avps.iter().find_map(|a| if let CxAvp::ServerName(s) = a { Some(s.clone()) } else { None });
    assert_eq!(server, Some("sip:scscf2.ims.example.com".into()));

    let sub = hss.subscribers.get("sip:carol@ims.example.com").unwrap();
    assert_eq!(sub.assigned_scscf, Some("sip:scscf2.ims.example.com".into()));
}

#[test]
fn cx_errors_codes_and_encoding() {
    let mut hss = HssCxEngine::new();
    let empty = CxMessage::new_request(CMD_UAR, "s");
    assert_eq!(hss.process_uar(&empty).avps, vec![CxAvp::ResultCode(5004)]);
    let mut unknown = CxMessage::new_request(CMD_MAR, "s");
    unknown.add_avp(CxAvp::PublicIdentity("x".into()));
    assert_eq!(hss.process_mar(&unknown).avps, vec![CxAvp::ResultCode(5001)]);
    assert_eq!(hss.process_sar(&unknown).avps, vec![CxAvp::ResultCode(5004)]);
    assert_eq!(hss.transactions, 3);
    assert_eq!(ServerAssignmentType::from_u32(11), Some(ServerAssignmentType::Deregistration));
    assert_eq!(ServerAssignmentType::from_u32(12), None);
    assert_eq!(UserAuthorizationType::from_u32(2).unwrap().as_u32(), 2);
    let mut m = CxMessage::new_request(300, "");
    m.add_avp(CxAvp::SipAuthDataItem { auth_scheme: "a".into(), auth_data: vec![9] });
    assert_eq!(
        m.serialize(),
        vec![0, 0, 1, 44, 0x80, 1, 0, 0, 0, 0, 0, 0, 0, 0, 0, 0, 0, 0, 0, 0, 0, 2, 100, 0, 6, 0, 1, b'a', 0, 1, 9]
    );
}
