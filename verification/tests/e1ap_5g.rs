use lib::e1ap_5g::{
    BearerContextSetupRequest, E1apDrbSetupItem, E1apEngine, E1apPduSessionItem, E1apRole,
    E1apState,
};
use lib::net::{Ipv4Address, PlmnId, RlcMode, Snssai};

fn drb(id: u8) -> E1apDrbSetupItem {
    E1apDrbSetupItem {
        drb_id: id,
        qfi_list: vec![1],
        pdcp_sn_size: 18,
        rlc_mode: RlcMode::Am,
        du_f1u_dl_transport_ip: Ipv4Address::new(10, 0, 0, 1),
        du_f1u_dl_gtp_teid: 7,
    }
}

fn sessions() -> Vec<E1apPduSessionItem> {
    vec![
        E1apPduSessionItem { pdu_session_id: 1, snssai: Snssai { sst: 1, sd: None }, drb_to_setup_list: vec![drb(1), drb(2)] },
        E1apPduSessionItem { pdu_session_id: 2, snssai: Snssai { sst: 2, sd: Some(5) }, drb_to_setup_list: vec![drb(3)] },
    ]
}

#[test]
fn e1_setup_handshake() {
    let mut cp = E1apEngine::new(E1apRole::CuCp, 1, "cu-cp");
    let mut up = E1apEngine::new(E1apRole::CuUp, 2, "cu-up");
    let req = up.initiate_e1_setup(vec![(PlmnId([0x00, 0xF1, 0x10]), vec![Snssai { sst: 1, sd: None }])]);
    assert_eq!(req.transaction_id, 1);
    assert_eq!(req.gnb_cu_up_name, Some("cu-up".to_string()));
    assert!(req.cn_support);
    assert_eq!(up.state, E1apState::SetupPending);
    let resp = cp.handle_e1_setup_request(&req).unwrap();
    assert_eq!(resp.gnb_cu_cp_name, Some("cu-cp".to_string()));
    assert_eq!(cp.state, E1apState::Active);
    assert_eq!(up.handle_e1_setup_response(&resp), Ok(()));
    assert_eq!(up.state, E1apState::Active);
    assert_eq!(
        up.handle_e1_setup_response(&resp),
        Err("Received GnbCuUpE1SetupResponse while not in SetupPending state")
    );
    assert_eq!(cp.handle_e1_setup_response(&resp), Err("Only CU-UP can process GnbCuUpE1SetupResponse"));
}

#[test]
fn e1_setup_failures() {
    let mut up = E1apEngine::new(E1apRole::CuUp, 2, "cu-up");
    let req = up.initiate_e1_setup(Vec::new());
    assert_eq!(up.handle_e1_setup_request(&req).unwrap_err().cause, "Only CU-CP can process GnbCuUpE1SetupRequest");
    let mut cp = E1apEngine::new(E1apRole::CuCp, 1, "cu-cp");
    let f = cp.handle_e1_setup_request(&req).unwrap_err();
    assert_eq!(f.cause, "No supported PLMNs provided by CU-UP");
    assert_eq!(cp.state, E1apState::Idle);
    assert_eq!(
        cp.build_bearer_context_setup_request(1, sessions()),
        Err("Cannot setup Bearer Context: E1 interface is not active")
    );
}

#[test]
fn bearer_context_allocates_tunnels() {
    let mut up = E1apEngine::new(E1apRole::CuUp, 2, "cu-up");
    let ip = Ipv4Address::new(192, 168, 1, 2);
    let req = BearerContextSetupRequest { gnb_cu_cp_ue_e1ap_id: 10, pdu_sessions: sessions() };
    let resp = up.handle_bearer_context_setup_request(&req, ip, 1000).unwrap();
    assert_eq!(resp.gnb_cu_up_ue_e1ap_id, 510);
    assert_eq!(resp.pdu_sessions.len(), 2);
    let d = &resp.pdu_sessions[0].drb_setup_list;
    assert_eq!((d[0].cu_up_f1u_dl_gtp_teid, d[0].cu_up_ngu_ul_gtp_teid), (1000, 1001));
    assert_eq!((d[1].cu_up_f1u_dl_gtp_teid, d[1].cu_up_ngu_ul_gtp_teid), (1002, 1003));
    let d = &resp.pdu_sessions[1].drb_setup_list;
    assert_eq!(d[0].drb_id, 3);
    assert_eq!((d[0].cu_up_f1u_dl_gtp_teid, d[0].cu_up_ngu_ul_gtp_teid), (1004, 1005));
    assert_eq!(d[0].cu_up_ngu_ul_transport_ip, ip);
    let ctx = up.lookup_by_up_ue_id(510).unwrap();
    assert_eq!(ctx.gnb_cu_cp_ue_e1ap_id, 10);
    assert_eq!(ctx.pdu_sessions, resp.pdu_sessions);

    let mut cp = E1apEngine::new(E1apRole::CuCp, 1, "cu-cp");
    assert_eq!(cp.handle_bearer_context_setup_request(&req, ip, 1), Err("Only CU-UP can process BearerContextSetupRequest"));
    assert_eq!(up.handle_bearer_context_setup_response(&resp), Err("Only CU-CP can process BearerContextSetupResponse"));
    assert_eq!(cp.handle_bearer_context_setup_response(&resp), Ok(()));
    assert_eq!(cp.lookup_by_cp_ue_id(10).unwrap().gnb_cu_up_ue_e1ap_id, 510);
    assert_eq!(cp.lookup_by_up_ue_id(510).unwrap().gnb_cu_cp_ue_e1ap_id, 10);
    assert!(cp.release_bearer_context(10));
    assert!(!cp.release_bearer_context(10));
    assert!(cp.lookup_by_cp_ue_id(10).is_none());
    assert!(cp.lookup_by_up_ue_id(510).is_none());
}
