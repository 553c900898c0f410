use lib::e2ap_oran::{
    E2NodeType, E2apEngine, E2apRole, E2apState, GlobalE2NodeId, RanFunctionDefinition,
    RicActionItem, RicActionType, RicControlRequest, RicIndicationType, RicRequestId,
    RicSubscriptionRequest,
};

fn node_id() -> GlobalE2NodeId {
    GlobalE2NodeId { node_type: E2NodeType::ODu, node_id: 42, plmn_id: [0x00, 0xF1, 0x10] }
}

fn functions() -> Vec<RanFunctionDefinition> {
    vec![
        RanFunctionDefinition { ran_function_id: 1, ran_function_revision: 3, description: "KPM".to_string() },
        RanFunctionDefinition { ran_function_id: 3, ran_function_revision: 1, description: "NI".to_string() },
        RanFunctionDefinition { ran_function_id: 2, ran_function_revision: 1, description: "RC".to_string() },
    ]
}

fn subscription(instance: u16) -> RicSubscriptionRequest {
    RicSubscriptionRequest {
        ric_request_id: RicRequestId { ric_requestor_id: 7, ric_instance_id: instance },
        ran_function_id: 1,
        event_trigger_period_ms: 100,
        actions: vec![
            RicActionItem { ric_action_id: 1, ric_action_type: RicActionType::Report, ric_action_definition: None },
            RicActionItem { ric_action_id: 4, ric_action_type: RicActionType::Policy, ric_action_definition: Some(vec![1, 2]) },
        ],
    }
}

fn active_node() -> E2apEngine {
    let mut ric = E2apEngine::new(E2apRole::NearRtRic, node_id());
    let mut node = E2apEngine::new(E2apRole::E2Node, node_id());
    let req = node.initiate_e2_setup(functions());
    let resp = ric.handle_e2_setup_request(&req).unwrap();
    node.handle_e2_setup_response(&resp).unwrap();
    node
}

#[test]
fn e2_setup_negotiates_functions() {
    let mut ric = E2apEngine::new(E2apRole::NearRtRic, node_id());
    let mut node = E2apEngine::new(E2apRole::E2Node, node_id());
    let req = node.initiate_e2_setup(functions());
    assert_eq!(req.transaction_id, 1);
    assert_eq!(node.next_tx_id, 2);
    assert_eq!(node.state, E2apState::SetupPending);
    assert_eq!(node.supported_ran_functions.len(), 3);
    let resp = ric.handle_e2_setup_request(&req).unwrap();
    assert_eq!(resp.transaction_id, 1);
    assert_eq!(resp.global_ric_id, 0x0001_0001);
    assert_eq!(resp.ran_functions_accepted, vec![1, 2]);
    assert_eq!(resp.ran_functions_rejected, vec![3]);
    assert_eq!(ric.state, E2apState::Active);
    assert_eq!(node.handle_e2_setup_response(&resp), Ok(()));
    assert_eq!(node.state, E2apState::Active);
    assert_eq!(node.accepted_ran_functions, vec![1, 2]);
    // Not waiting any more.
    assert_eq!(
        node.handle_e2_setup_response(&resp),
        Err("Received E2SetupResponse while not in SetupPending state")
    );
}

#[test]
fn e2_setup_failures() {
    let mut node = E2apEngine::new(E2apRole::E2Node, node_id());
    let req = node.initiate_e2_setup(functions());
    let f = node.handle_e2_setup_request(&req).unwrap_err();
    assert_eq!(f.cause, "Only Near-RT RIC can process E2SetupRequest");
    let mut ric = E2apEngine::new(E2apRole::NearRtRic, node_id());
    let empty = node.initiate_e2_setup(Vec::new());
    assert_eq!(empty.transaction_id, 2);
    let f = ric.handle_e2_setup_request(&empty).unwrap_err();
    assert_eq!(f.transaction_id, 2);
    assert_eq!(f.cause, "No RAN functions advertised by E2 Node");
    assert_eq!(ric.state, E2apState::Idle);
    let resp = ric.handle_e2_setup_request(&req).unwrap();
    assert_eq!(ric.handle_e2_setup_response(&resp), Err("Only E2 Node can process E2SetupResponse"));
}

#[test]
fn subscriptions_and_indications() {
    let mut node = active_node();
    let resp = node.handle_subscription_request(&subscription(1)).unwrap();
    assert_eq!(resp.actions_admitted, vec![1, 4]);
    assert!(resp.actions_not_admitted.is_empty());
    let id = RicRequestId { ric_requestor_id: 7, ric_instance_id: 1 };
    assert_eq!(id.key(), 7 * 65536 + 1);
    assert!(node.active_subscriptions.contains_key(&id.key()));
    let ind = node.prepare_indication(id, 1).unwrap();
    assert_eq!(ind.ric_indication_sn, 1);
    assert_eq!(ind.ran_function_id, 1);
    assert_eq!(ind.ric_indication_type, RicIndicationType::Report);
    let ind2 = node.prepare_indication(id, 4).unwrap();
    assert_eq!(ind2.ric_indication_sn, 2);
    let unknown = RicRequestId { ric_requestor_id: 7, ric_instance_id: 9 };
    assert_eq!(node.prepare_indication(unknown, 1), Err("Subscription does not exist for specified RicRequestId"));
    let mut other = subscription(2);
    other.ran_function_id = 3;
    assert_eq!(node.handle_subscription_request(&other), Err("RAN function not admitted during E2 setup"));
    let mut idle = E2apEngine::new(E2apRole::E2Node, node_id());
    assert_eq!(idle.handle_subscription_request(&subscription(1)), Err("E2 interface is not active"));
    assert_eq!(idle.prepare_indication(id, 1), Err("E2 interface is not active"));
}

#[test]
fn control_sets_slice_quota() {
    let mut node = active_node();
    let ctrl = RicControlRequest {
        ric_request_id: RicRequestId { ric_requestor_id: 1, ric_instance_id: 1 },
        ran_function_id: 2,
        target_slice_sst: 1,
        target_slice_sd: None,
        allocated_prb_quota_ppm: 300_000,
        ack_request: true,
    };
    let ack = node.handle_control_request(&ctrl).unwrap().unwrap();
    assert_eq!(ack.status, "Success");
    assert_eq!(node.slice_prb_quotas.get(&1), Some(&300_000));
    let mut quiet = ctrl.clone();
    quiet.ack_request = false;
    quiet.allocated_prb_quota_ppm = 100;
    assert_eq!(node.handle_control_request(&quiet), Ok(None));
    assert_eq!(node.slice_prb_quotas.get(&1), Some(&100));
    let mut ric = E2apEngine::new(E2apRole::NearRtRic, node_id());
    assert_eq!(ric.handle_control_request(&ctrl), Err("Only E2 Node can handle RicControlRequest"));
}
