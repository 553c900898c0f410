//! O-RAN WG3 E2 Application Protocol between the Near-RT RIC and E2 nodes (O-DU, O-CU-CP,
//! O-CU-UP): E2 setup with RAN function negotiation, RIC subscriptions, indications and
//! RIC control of slice PRB quotas.
//!
//! Key performance measurements carry throughputs as floating-point numbers; the library
//! decides and numbers an indication (`prepare_indication`) and leaves the measurements to
//! the caller.
use vstd::prelude::*;
use std::collections::HashMap;
use crate::text::owned;

verus! {

broadcast use vstd::std_specs::hash::group_hash_axioms;

pub const E2AP_SCTP_PORT: u16 = 36421;

pub const E2AP_PROC_E2_SETUP: u8 = 1;
pub const E2AP_PROC_RIC_SUBSCRIPTION: u8 = 201;
pub const E2AP_PROC_RIC_SUBSCRIPTION_DELETE: u8 = 202;
pub const E2AP_PROC_RIC_CONTROL: u8 = 204;
pub const E2AP_PROC_RIC_INDICATION: u8 = 205;

pub const RAN_FUNCTION_ID_KPM: u16 = 1;
pub const RAN_FUNCTION_ID_RC: u16 = 2;
pub const RAN_FUNCTION_ID_NI: u16 = 3;

/// The kind of an E2 node.
#[derive(Debug, Clone, Copy, PartialEq, Eq, Structural)]
pub enum E2NodeType {
    ODu,
    OCuCp,
    OCuUp,
    OeNb,
}

/// Global E2 node identifier.
#[derive(Debug, Clone, Copy, PartialEq, Eq)]
pub struct GlobalE2NodeId {
    pub node_type: E2NodeType,
    pub node_id: u64,
    pub plmn_id: [u8; 3],
}

/// A RAN function (service model) an E2 node offers.
#[derive(Debug, Clone, PartialEq, Eq)]
pub struct RanFunctionDefinition {
    pub ran_function_id: u16,
    pub ran_function_revision: u16,
    pub description: String,
}

/// RAN functions taken by their numbers and description text.
pub open spec fn functions_view(fs: Seq<RanFunctionDefinition>) -> Seq<(u16, u16, Seq<char>)> {
    fs.map_values(|f: RanFunctionDefinition| (f.ran_function_id, f.ran_function_revision, f.description@))
}

fn copy_functions(fs: &Vec<RanFunctionDefinition>) -> (r: Vec<RanFunctionDefinition>)
    ensures
        functions_view(r@) == functions_view(fs@),
{
    let mut out: Vec<RanFunctionDefinition> = Vec::new();
    let mut i: usize = 0;
    while i < fs.len()
        invariant
            i <= fs@.len(),
            functions_view(out@) == functions_view(fs@.take(i as int)),
        decreases fs@.len() - i,
    {
        let f = &fs[i];
        let ghost before = out@;
        let nf = RanFunctionDefinition {
            ran_function_id: f.ran_function_id,
            ran_function_revision: f.ran_function_revision,
            description: f.description.clone(),
        };
        assert(nf.description@ == fs@[i as int].description@);
        out.push(nf);
        assert(fs@.take(i + 1) =~= fs@.take(i as int).push(fs@[i as int]));
        assert(functions_view(out@) =~= functions_view(before).push((nf.ran_function_id, nf.ran_function_revision, nf.description@)));
        i = i + 1;
        assert(functions_view(out@) =~= functions_view(fs@.take(i as int)));
    }
    assert(fs@.take(i as int) =~= fs@);
    out
}

/// E2 Setup Request (E2 node to RIC).
#[derive(Debug, Clone, PartialEq, Eq)]
pub struct E2SetupRequest {
    pub transaction_id: u8,
    pub global_e2_node_id: GlobalE2NodeId,
    pub ran_functions_added: Vec<RanFunctionDefinition>,
}

/// E2 Setup Response (RIC to E2 node).
#[derive(Debug, Clone, PartialEq, Eq)]
pub struct E2SetupResponse {
    pub transaction_id: u8,
    pub global_ric_id: u32,
    pub ran_functions_accepted: Vec<u16>,
    pub ran_functions_rejected: Vec<u16>,
}

/// E2 Setup Failure (RIC to E2 node).
#[derive(Debug, Clone, PartialEq, Eq)]
pub struct E2SetupFailure {
    pub transaction_id: u8,
    pub cause: &'static str,
}

/// RIC request identifier.
#[derive(Debug, Clone, Copy, PartialEq, Eq, Hash, Structural)]
pub struct RicRequestId {
    pub ric_requestor_id: u16,
    pub ric_instance_id: u16,
}

/// The number under which a subscription is kept: requestor, then instance.
pub open spec fn request_key(id: RicRequestId) -> u32 {
    (id.ric_requestor_id * 65536 + id.ric_instance_id) as u32
}

impl RicRequestId {
    /// The number under which a subscription is kept (see `request_key`).
    pub fn key(&self) -> (r: u32)
        ensures
            r == request_key(*self),
    {
        (self.ric_requestor_id as u32) * 65536 + (self.ric_instance_id as u32)
    }
}

/// RIC action type.
#[derive(Debug, Clone, Copy, PartialEq, Eq, Structural)]
pub enum RicActionType {
    Report,
    Insert,
    Policy,
}

/// An action of a subscription.
#[derive(Debug, Clone, PartialEq, Eq)]
pub struct RicActionItem {
    pub ric_action_id: u8,
    pub ric_action_type: RicActionType,
    pub ric_action_definition: Option<Vec<u8>>,
}

/// Actions taken by their numbers, types and definition octets.
pub open spec fn actions_view(v: Seq<RicActionItem>) -> Seq<(u8, RicActionType, Option<Seq<u8>>)> {
    v.map_values(
        |a: RicActionItem|
            (
                a.ric_action_id,
                a.ric_action_type,
                match a.ric_action_definition {
                    Some(d) => Some(d@),
                    None => None,
                },
            ),
    )
}

fn copy_actions(v: &Vec<RicActionItem>) -> (r: Vec<RicActionItem>)
    ensures
        actions_view(r@) == actions_view(v@),
{
    let mut out: Vec<RicActionItem> = Vec::new();
    let mut i: usize = 0;
    while i < v.len()
        invariant
            i <= v@.len(),
            actions_view(out@) == actions_view(v@.take(i as int)),
        decreases v@.len() - i,
    {
        let a = &v[i];
        let def = match &a.ric_action_definition {
            Some(d) => Some(crate::wire::copy_range(d.as_slice(), 0, d.len())),
            None => None,
        };
        proof {
            if a.ric_action_definition is Some {
                let d = a.ric_action_definition.unwrap();
                assert(d@.subrange(0, d@.len() as int) =~= d@);
            }
        }
        let ghost before = out@;
        let na = RicActionItem { ric_action_id: a.ric_action_id, ric_action_type: a.ric_action_type, ric_action_definition: def };
        out.push(na);
        assert(v@.take(i + 1) =~= v@.take(i as int).push(v@[i as int]));
        assert(actions_view(seq![na]) =~= actions_view(seq![v@[i as int]]));
        assert(actions_view(out@) =~= actions_view(before) + actions_view(seq![na]));
        assert(actions_view(v@.take(i + 1)) =~= actions_view(v@.take(i as int)) + actions_view(seq![v@[i as int]]));
        i = i + 1;
        assert(actions_view(out@) =~= actions_view(v@.take(i as int)));
    }
    assert(v@.take(i as int) =~= v@);
    out
}

/// RIC Subscription Request (RIC to E2 node).
#[derive(Debug, Clone, PartialEq, Eq)]
pub struct RicSubscriptionRequest {
    pub ric_request_id: RicRequestId,
    pub ran_function_id: u16,
    pub event_trigger_period_ms: u32,
    pub actions: Vec<RicActionItem>,
}

/// RIC Subscription Response (E2 node to RIC).
#[derive(Debug, Clone, PartialEq, Eq)]
pub struct RicSubscriptionResponse {
    pub ric_request_id: RicRequestId,
    pub ran_function_id: u16,
    pub actions_admitted: Vec<u8>,
    pub actions_not_admitted: Vec<(u8, &'static str)>,
}

/// RIC indication type.
#[derive(Debug, Clone, Copy, PartialEq, Eq, Structural)]
pub enum RicIndicationType {
    Report,
    Insert,
}

/// What the E2 node decides for an indication: whose subscription, which action, its
/// sequence number and type. The measurements travel beside it.
#[derive(Debug, Clone, Copy, PartialEq, Eq, Structural)]
pub struct RicIndicationHeader {
    pub ric_request_id: RicRequestId,
    pub ran_function_id: u16,
    pub ric_action_id: u8,
    pub ric_indication_sn: u32,
    pub ric_indication_type: RicIndicationType,
}

/// RIC Control Request (RIC to E2 node): a slice's PRB quota.
#[derive(Debug, Clone, PartialEq, Eq)]
pub struct RicControlRequest {
    pub ric_request_id: RicRequestId,
    pub ran_function_id: u16,
    pub target_slice_sst: u8,
    pub target_slice_sd: Option<[u8; 3]>,
    pub allocated_prb_quota_ppm: u32,
    pub ack_request: bool,
}

/// RIC Control Acknowledge (E2 node to RIC).
#[derive(Debug, Clone, PartialEq, Eq)]
pub struct RicControlAcknowledge {
    pub ric_request_id: RicRequestId,
    pub ran_function_id: u16,
    pub status: &'static str,
}

/// The side of the E2 interface an engine plays.
#[derive(Debug, Clone, Copy, PartialEq, Eq, Structural)]
pub enum E2apRole {
    NearRtRic,
    E2Node,
}

/// The state of the E2 interface.
#[derive(Debug, Clone, Copy, PartialEq, Eq, Structural)]
pub enum E2apState {
    Idle,
    SetupPending,
    Active,
}

/// An E2AP endpoint, RIC or E2 node.
#[derive(Debug, Clone)]
pub struct E2apEngine {
    pub role: E2apRole,
    pub state: E2apState,
    pub node_id: GlobalE2NodeId,
    pub supported_ran_functions: Vec<RanFunctionDefinition>,
    pub accepted_ran_functions: Vec<u16>,
    pub active_subscriptions: HashMap<u32, RicSubscriptionRequest>,
    pub slice_prb_quotas: HashMap<u8, u32>,
    pub next_tx_id: u8,
    pub next_indication_sn: u32,
}

/// The number after `n`, wrapping to zero.
pub open spec fn wrap_u8(n: u8) -> u8 {
    if n == u8::MAX { 0 } else { (n + 1) as u8 }
}

/// The number after `n`, wrapping to zero.
pub open spec fn wrap_u32(n: u32) -> u32 {
    if n == u32::MAX { 0 } else { (n + 1) as u32 }
}

/// Whether the RIC admits a RAN function: KPM and RC only.
pub open spec fn admitted_function(id: u16) -> bool {
    id == RAN_FUNCTION_ID_KPM || id == RAN_FUNCTION_ID_RC
}

/// The numbers of the functions the RIC admits (`accept`) or turns down, in order.
pub open spec fn function_ids(fs: Seq<RanFunctionDefinition>, accept: bool) -> Seq<u16>
    decreases fs.len(),
{
    if fs.len() == 0 {
        Seq::empty()
    } else {
        let id = fs.last().ran_function_id;
        function_ids(fs.drop_last(), accept) + (if admitted_function(id) == accept { seq![id] } else { Seq::empty() })
    }
}

impl E2apEngine {
    /// An idle engine with no function, subscription or quota; numbering starts at 1.
    pub fn new(role: E2apRole, node_id: GlobalE2NodeId) -> (r: Self)
        ensures
            r.role == role,
            r.state == E2apState::Idle,
            r.node_id == node_id,
            r.supported_ran_functions@.len() == 0,
            r.accepted_ran_functions@.len() == 0,
            r.active_subscriptions@ == Map::<u32, RicSubscriptionRequest>::empty(),
            r.slice_prb_quotas@ == Map::<u8, u32>::empty(),
            r.next_tx_id == 1,
            r.next_indication_sn == 1,
    {
        E2apEngine {
            role,
            state: E2apState::Idle,
            node_id,
            supported_ran_functions: Vec::new(),
            accepted_ran_functions: Vec::new(),
            active_subscriptions: HashMap::new(),
            slice_prb_quotas: HashMap::new(),
            next_tx_id: 1,
            next_indication_sn: 1,
        }
    }

    /// Starts E2 setup (E2 node): the engine waits for the answer, remembers the
    /// functions it offers, and sends them under the next transaction number.
    pub fn initiate_e2_setup(&mut self, ran_functions: Vec<RanFunctionDefinition>) -> (r: E2SetupRequest)
        ensures
            final(self).state == E2apState::SetupPending,
            functions_view(final(self).supported_ran_functions@) == functions_view(ran_functions@),
            r.transaction_id == old(self).next_tx_id,
            final(self).next_tx_id == wrap_u8(old(self).next_tx_id),
            r.global_e2_node_id == old(self).node_id,
            r.ran_functions_added == ran_functions,
            final(self).role == old(self).role,
            final(self).node_id == old(self).node_id,
            final(self).accepted_ran_functions == old(self).accepted_ran_functions,
            final(self).active_subscriptions == old(self).active_subscriptions,
            final(self).slice_prb_quotas == old(self).slice_prb_quotas,
            final(self).next_indication_sn == old(self).next_indication_sn,
    {
        self.state = E2apState::SetupPending;
        self.supported_ran_functions = copy_functions(&ran_functions);
        let tx_id = self.next_tx_id;
        self.next_tx_id = self.next_tx_id.wrapping_add(1);
        E2SetupRequest { transaction_id: tx_id, global_e2_node_id: self.node_id, ran_functions_added: ran_functions }
    }

    /// Handles E2 setup (RIC): only a RIC answers, and only a request offering some
    /// function; then KPM and RC are admitted, the others turned down, and the interface
    /// is active. A failure changes nothing.
    pub fn handle_e2_setup_request(&mut self, req: &E2SetupRequest) -> (r: Result<E2SetupResponse, E2SetupFailure>)
        ensures
            old(self).role != E2apRole::NearRtRic ==> (r matches Err(f) && f.transaction_id == req.transaction_id
                && f.cause@ == "Only Near-RT RIC can process E2SetupRequest"@ && *final(self) == *old(self)),
            old(self).role == E2apRole::NearRtRic && req.ran_functions_added@.len() == 0 ==> (r matches Err(f)
                && f.transaction_id == req.transaction_id && f.cause@ == "No RAN functions advertised by E2 Node"@
                && *final(self) == *old(self)),
            old(self).role == E2apRole::NearRtRic && req.ran_functions_added@.len() > 0 ==> (r matches Ok(resp) && {
                &&& resp.transaction_id == req.transaction_id
                &&& resp.global_ric_id == 0x0001_0001
                &&& resp.ran_functions_accepted@ == function_ids(req.ran_functions_added@, true)
                &&& resp.ran_functions_rejected@ == function_ids(req.ran_functions_added@, false)
                &&& final(self).accepted_ran_functions@ == function_ids(req.ran_functions_added@, true)
                &&& final(self).state == E2apState::Active
                &&& final(self).role == old(self).role
                &&& final(self).node_id == old(self).node_id
                &&& final(self).supported_ran_functions == old(self).supported_ran_functions
                &&& final(self).active_subscriptions == old(self).active_subscriptions
                &&& final(self).slice_prb_quotas == old(self).slice_prb_quotas
                &&& final(self).next_tx_id == old(self).next_tx_id
                &&& final(self).next_indication_sn == old(self).next_indication_sn
            }),
    {
        if self.role != E2apRole::NearRtRic {
            return Err(
                E2SetupFailure {
                    transaction_id: req.transaction_id,
                    cause: "Only Near-RT RIC can process E2SetupRequest",
                },
            );
        }
        if req.ran_functions_added.len() == 0 {
            return Err(
                E2SetupFailure { transaction_id: req.transaction_id, cause: "No RAN functions advertised by E2 Node" },
            );
        }
        let ghost fs = req.ran_functions_added@;
        let mut accepted: Vec<u16> = Vec::new();
        let mut rejected: Vec<u16> = Vec::new();
        let mut i: usize = 0;
        while i < req.ran_functions_added.len()
            invariant
                fs == req.ran_functions_added@,
                i <= fs.len(),
                accepted@ == function_ids(fs.take(i as int), true),
                rejected@ == function_ids(fs.take(i as int), false),
            decreases fs.len() - i,
        {
            proof {
                assert(fs.take(i + 1).drop_last() =~= fs.take(i as int));
            }
            let id = req.ran_functions_added[i].ran_function_id;
            if id == RAN_FUNCTION_ID_KPM || id == RAN_FUNCTION_ID_RC {
                accepted.push(id);
            } else {
                rejected.push(id);
            }
            i = i + 1;
            assert(accepted@ =~= function_ids(fs.take(i as int), true));
            assert(rejected@ =~= function_ids(fs.take(i as int), false));
        }
        assert(fs.take(i as int) =~= fs);
        self.accepted_ran_functions = accepted.clone();
        self.state = E2apState::Active;
        Ok(
            E2SetupResponse {
                transaction_id: req.transaction_id,
                global_ric_id: 0x0001_0001,
                ran_functions_accepted: accepted,
                ran_functions_rejected: rejected,
            },
        )
    }

    /// Handles the setup answer (E2 node waiting for one): the accepted functions are
    /// kept and the interface is active. Otherwise an error, and nothing changes.
    pub fn handle_e2_setup_response(&mut self, resp: &E2SetupResponse) -> (r: Result<(), &'static str>)
        ensures
            old(self).role != E2apRole::E2Node ==> (r matches Err(e) && e@ == "Only E2 Node can process E2SetupResponse"@
                && *final(self) == *old(self)),
            old(self).role == E2apRole::E2Node && old(self).state != E2apState::SetupPending ==> (r matches Err(e)
                && e@ == "Received E2SetupResponse while not in SetupPending state"@ && *final(self) == *old(self)),
            old(self).role == E2apRole::E2Node && old(self).state == E2apState::SetupPending ==> r is Ok && {
                &&& final(self).accepted_ran_functions@ == resp.ran_functions_accepted@
                &&& final(self).state == E2apState::Active
                &&& final(self).role == old(self).role
                &&& final(self).node_id == old(self).node_id
                &&& final(self).supported_ran_functions == old(self).supported_ran_functions
                &&& final(self).active_subscriptions == old(self).active_subscriptions
                &&& final(self).slice_prb_quotas == old(self).slice_prb_quotas
                &&& final(self).next_tx_id == old(self).next_tx_id
                &&& final(self).next_indication_sn == old(self).next_indication_sn
            },
    {
        if self.role != E2apRole::E2Node {
            return Err("Only E2 Node can process E2SetupResponse");
        }
        if self.state != E2apState::SetupPending {
            return Err("Received E2SetupResponse while not in SetupPending state");
        }
        self.accepted_ran_functions = resp.ran_functions_accepted.clone();
        self.state = E2apState::Active;
        Ok(())
    }

    /// Handles a subscription (active E2 node, for a function admitted at setup): every
    /// action is admitted and the subscription kept under its request identifier.
    /// Otherwise an error, and nothing changes.
    pub fn handle_subscription_request(&mut self, req: &RicSubscriptionRequest) -> (r: Result<
        RicSubscriptionResponse,
        &'static str,
    >)
        ensures
            old(self).role != E2apRole::E2Node ==> (r matches Err(e) && e@ == "Only E2 Node can handle RicSubscriptionRequest"@
                && *final(self) == *old(self)),
            old(self).role == E2apRole::E2Node && old(self).state != E2apState::Active ==> (r matches Err(e) && e@
                == "E2 interface is not active"@ && *final(self) == *old(self)),
            old(self).role == E2apRole::E2Node && old(self).state == E2apState::Active
                && !old(self).accepted_ran_functions@.contains(req.ran_function_id) ==> (r matches Err(e) && e@
                == "RAN function not admitted during E2 setup"@ && *final(self) == *old(self)),
            old(self).role == E2apRole::E2Node && old(self).state == E2apState::Active
                && old(self).accepted_ran_functions@.contains(req.ran_function_id) ==> (r matches Ok(resp) && {
                &&& resp.ric_request_id == req.ric_request_id
                &&& resp.ran_function_id == req.ran_function_id
                &&& resp.actions_admitted@ == req.actions@.map_values(|a: RicActionItem| a.ric_action_id)
                &&& resp.actions_not_admitted@.len() == 0
                &&& final(self).active_subscriptions@.dom() == old(self).active_subscriptions@.dom().insert(
                    request_key(req.ric_request_id),
                )
                &&& forall|k: u32| k != request_key(req.ric_request_id) ==> #[trigger] final(self).active_subscriptions@.get(k)
                    == old(self).active_subscriptions@.get(k)
                &&& ({
                    let s = final(self).active_subscriptions@[request_key(req.ric_request_id)];
                    &&& s.ric_request_id == req.ric_request_id
                    &&& s.ran_function_id == req.ran_function_id
                    &&& s.event_trigger_period_ms == req.event_trigger_period_ms
                    &&& actions_view(s.actions@) == actions_view(req.actions@)
                })
                &&& final(self).role == old(self).role
                &&& final(self).state == old(self).state
                &&& final(self).node_id == old(self).node_id
                &&& final(self).supported_ran_functions == old(self).supported_ran_functions
                &&& final(self).accepted_ran_functions == old(self).accepted_ran_functions
                &&& final(self).slice_prb_quotas == old(self).slice_prb_quotas
                &&& final(self).next_tx_id == old(self).next_tx_id
                &&& final(self).next_indication_sn == old(self).next_indication_sn
            }),
    {
        if self.role != E2apRole::E2Node {
            return Err("Only E2 Node can handle RicSubscriptionRequest");
        }
        if self.state != E2apState::Active {
            return Err("E2 interface is not active");
        }
        let mut known = false;
        let mut j: usize = 0;
        while j < self.accepted_ran_functions.len()
            invariant
                j <= self.accepted_ran_functions@.len(),
                known == (exists|k: int| 0 <= k < j && self.accepted_ran_functions@[k] == req.ran_function_id),
            decreases self.accepted_ran_functions@.len() - j,
        {
            if self.accepted_ran_functions[j] == req.ran_function_id {
                known = true;
            }
            j = j + 1;
        }
        if !known {
            return Err("RAN function not admitted during E2 setup");
        }
        let mut admitted: Vec<u8> = Vec::new();
        let mut i: usize = 0;
        while i < req.actions.len()
            invariant
                i <= req.actions@.len(),
                admitted@ == req.actions@.take(i as int).map_values(|a: RicActionItem| a.ric_action_id),
            decreases req.actions@.len() - i,
        {
            admitted.push(req.actions[i].ric_action_id);
            i = i + 1;
            assert(admitted@ =~= req.actions@.take(i as int).map_values(|a: RicActionItem| a.ric_action_id));
        }
        assert(req.actions@.take(i as int) =~= req.actions@);
        let key = req.ric_request_id.key();
        let kept = RicSubscriptionRequest {
            ric_request_id: req.ric_request_id,
            ran_function_id: req.ran_function_id,
            event_trigger_period_ms: req.event_trigger_period_ms,
            actions: copy_actions(&req.actions),
        };
        self.active_subscriptions.insert(key, kept);
        assert(self.active_subscriptions@.dom() =~= old(self).active_subscriptions@.dom().insert(key));
        Ok(
            RicSubscriptionResponse {
                ric_request_id: req.ric_request_id,
                ran_function_id: req.ran_function_id,
                actions_admitted: admitted,
                actions_not_admitted: Vec::new(),
            },
        )
    }

    /// Numbers a KPM report indication (active E2 node, existing subscription): it
    /// carries the subscription's function and the next sequence number, which then
    /// advances (wrapping). Otherwise an error, and nothing changes.
    pub fn prepare_indication(&mut self, req_id: RicRequestId, action_id: u8) -> (r: Result<
        RicIndicationHeader,
        &'static str,
    >)
        ensures
            old(self).role != E2apRole::E2Node ==> (r matches Err(e) && e@ == "Only E2 Node can emit RIC Indication"@
                && *final(self) == *old(self)),
            old(self).role == E2apRole::E2Node && old(self).state != E2apState::Active ==> (r matches Err(e) && e@
                == "E2 interface is not active"@ && *final(self) == *old(self)),
            old(self).role == E2apRole::E2Node && old(self).state == E2apState::Active
                && !old(self).active_subscriptions@.contains_key(request_key(req_id)) ==> (r matches Err(e) && e@
                == "Subscription does not exist for specified RicRequestId"@ && *final(self) == *old(self)),
            old(self).role == E2apRole::E2Node && old(self).state == E2apState::Active
                && old(self).active_subscriptions@.contains_key(request_key(req_id)) ==> r == Ok::<
                RicIndicationHeader,
                &'static str,
            >(
                RicIndicationHeader {
                    ric_request_id: req_id,
                    ran_function_id: old(self).active_subscriptions@[request_key(req_id)].ran_function_id,
                    ric_action_id: action_id,
                    ric_indication_sn: old(self).next_indication_sn,
                    ric_indication_type: RicIndicationType::Report,
                },
            ) && final(self).next_indication_sn == wrap_u32(old(self).next_indication_sn) && final(self).role == old(self).role
                && final(self).state == old(self).state && final(self).node_id == old(self).node_id
                && final(self).supported_ran_functions == old(self).supported_ran_functions
                && final(self).accepted_ran_functions == old(self).accepted_ran_functions
                && final(self).active_subscriptions == old(self).active_subscriptions
                && final(self).slice_prb_quotas == old(self).slice_prb_quotas
                && final(self).next_tx_id == old(self).next_tx_id,
    {
        if self.role != E2apRole::E2Node {
            return Err("Only E2 Node can emit RIC Indication");
        }
        if self.state != E2apState::Active {
            return Err("E2 interface is not active");
        }
        let key = req_id.key();
        let ran_function_id = match self.active_subscriptions.get(&key) {
            Some(sub) => sub.ran_function_id,
            None => {
                return Err("Subscription does not exist for specified RicRequestId");
            },
        };
        let sn = self.next_indication_sn;
        self.next_indication_sn = self.next_indication_sn.wrapping_add(1);
        Ok(
            RicIndicationHeader {
                ric_request_id: req_id,
                ran_function_id,
                ric_action_id: action_id,
                ric_indication_sn: sn,
                ric_indication_type: RicIndicationType::Report,
            },
        )
    }

    /// Handles a control request (active E2 node): the slice's PRB quota is set, and an
    /// acknowledgement returned where one was asked for. Otherwise an error, and nothing
    /// changes.
    pub fn handle_control_request(&mut self, ctrl: &RicControlRequest) -> (r: Result<
        Option<RicControlAcknowledge>,
        &'static str,
    >)
        ensures
            old(self).role != E2apRole::E2Node ==> (r matches Err(e) && e@ == "Only E2 Node can handle RicControlRequest"@
                && *final(self) == *old(self)),
            old(self).role == E2apRole::E2Node && old(self).state != E2apState::Active ==> (r matches Err(e) && e@
                == "E2 interface is not active"@ && *final(self) == *old(self)),
            old(self).role == E2apRole::E2Node && old(self).state == E2apState::Active ==> {
                &&& final(self).slice_prb_quotas@ == old(self).slice_prb_quotas@.insert(
                    ctrl.target_slice_sst,
                    ctrl.allocated_prb_quota_ppm,
                )
                &&& (if ctrl.ack_request {
                    r matches Ok(Some(ack)) && ack.ric_request_id == ctrl.ric_request_id && ack.ran_function_id
                        == ctrl.ran_function_id && ack.status@ == "Success"@
                } else {
                    r matches Ok(None)
                })
                &&& final(self).role == old(self).role
                &&& final(self).state == old(self).state
                &&& final(self).node_id == old(self).node_id
                &&& final(self).supported_ran_functions == old(self).supported_ran_functions
                &&& final(self).accepted_ran_functions == old(self).accepted_ran_functions
                &&& final(self).active_subscriptions == old(self).active_subscriptions
                &&& final(self).next_tx_id == old(self).next_tx_id
                &&& final(self).next_indication_sn == old(self).next_indication_sn
            },
    {
        if self.role != E2apRole::E2Node {
            return Err("Only E2 Node can handle RicControlRequest");
        }
        if self.state != E2apState::Active {
            return Err("E2 interface is not active");
        }
        self.slice_prb_quotas.insert(ctrl.target_slice_sst, ctrl.allocated_prb_quota_ppm);
        if ctrl.ack_request {
            Ok(
                Some(
                    RicControlAcknowledge {
                        ric_request_id: ctrl.ric_request_id,
                        ran_function_id: ctrl.ran_function_id,
                        status: "Success",
                    },
                ),
            )
        } else {
            Ok(None)
        }
    }
}

/// The RIC's setup answer splits the offered functions: every offered function is either
/// accepted or rejected, never both, and the accepted ones are exactly KPM and RC.
pub proof fn lemma_setup_partitions(fs: Seq<RanFunctionDefinition>)
    ensures
        function_ids(fs, true).len() + function_ids(fs, false).len() == fs.len(),
        forall|i: int| 0 <= i < function_ids(fs, true).len() ==> admitted_function(#[trigger] function_ids(fs, true)[i]),
        forall|i: int| 0 <= i < function_ids(fs, false).len() ==> !admitted_function(#[trigger] function_ids(fs, false)[i]),
    decreases fs.len(),
{
    if fs.len() > 0 {
        lemma_setup_partitions(fs.drop_last());
        let a = function_ids(fs.drop_last(), true);
        let b = function_ids(fs.drop_last(), false);
        let id = fs.last().ran_function_id;
        assert forall|i: int| 0 <= i < function_ids(fs, true).len() implies admitted_function(
            #[trigger] function_ids(fs, true)[i],
        ) by {
            if i < a.len() {
                assert(function_ids(fs, true)[i] == a[i]);
            }
        }
        assert forall|i: int| 0 <= i < function_ids(fs, false).len() implies !admitted_function(
            #[trigger] function_ids(fs, false)[i],
        ) by {
            if i < b.len() {
                assert(function_ids(fs, false)[i] == b[i]);
            }
        }
    }
}

} // verus!
