//! E1 Application Protocol between the gNB-CU-CP and the gNB-CU-UP (3GPP TS 38.463):
//! E1 setup and bearer context management, with F1-U and N3 tunnel endpoints allocated
//! by the CU-UP.
use vstd::prelude::*;
use std::collections::HashMap;
use crate::net::{Ipv4Address, PlmnId, RlcMode, Snssai};
use crate::text::owned;

verus! {

broadcast use vstd::std_specs::hash::group_hash_axioms;

pub const E1AP_SCTP_PORT: u16 = 38462;

pub const E1AP_PROC_GNB_CU_UP_E1_SETUP: u8 = 0;
pub const E1AP_PROC_BEARER_CONTEXT_SETUP: u8 = 2;
pub const E1AP_PROC_BEARER_CONTEXT_MODIFICATION: u8 = 3;
pub const E1AP_PROC_BEARER_CONTEXT_RELEASE: u8 = 4;

/// The side of the E1 interface an engine plays.
#[derive(Debug, Clone, Copy, PartialEq, Eq, Structural)]
pub enum E1apRole {
    CuCp,
    CuUp,
}

/// The state of the E1 interface.
#[derive(Debug, Clone, Copy, PartialEq, Eq, Structural)]
pub enum E1apState {
    Idle,
    SetupPending,
    Active,
}

/// E1 Setup Request (CU-UP to CU-CP).
#[derive(Debug, Clone, PartialEq, Eq)]
pub struct GnbCuUpE1SetupRequest {
    pub transaction_id: u8,
    pub gnb_cu_up_id: u64,
    pub gnb_cu_up_name: Option<String>,
    pub cn_support: bool,
    pub supported_plmns: Vec<(PlmnId, Vec<Snssai>)>,
}

/// E1 Setup Response (CU-CP to CU-UP).
#[derive(Debug, Clone, PartialEq, Eq)]
pub struct GnbCuUpE1SetupResponse {
    pub transaction_id: u8,
    pub gnb_cu_cp_name: Option<String>,
}

/// E1 Setup Failure (CU-CP to CU-UP).
#[derive(Debug, Clone, PartialEq, Eq)]
pub struct GnbCuUpE1SetupFailure {
    pub transaction_id: u8,
    pub cause: &'static str,
}

/// A DRB to set up (CU-CP to CU-UP).
#[derive(Debug, Clone, PartialEq, Eq)]
pub struct E1apDrbSetupItem {
    pub drb_id: u8,
    pub qfi_list: Vec<u8>,
    pub pdcp_sn_size: u8,
    pub rlc_mode: RlcMode,
    pub du_f1u_dl_transport_ip: Ipv4Address,
    pub du_f1u_dl_gtp_teid: u32,
}

/// A PDU session to set up (CU-CP to CU-UP).
#[derive(Debug, Clone, PartialEq, Eq)]
pub struct E1apPduSessionItem {
    pub pdu_session_id: u8,
    pub snssai: Snssai,
    pub drb_to_setup_list: Vec<E1apDrbSetupItem>,
}

/// The tunnel endpoints the CU-UP set up for a DRB.
#[derive(Debug, Clone, Copy, PartialEq, Eq)]
pub struct E1apDrbSetupResponseItem {
    pub drb_id: u8,
    pub cu_up_f1u_dl_transport_ip: Ipv4Address,
    pub cu_up_f1u_dl_gtp_teid: u32,
    pub cu_up_ngu_ul_transport_ip: Ipv4Address,
    pub cu_up_ngu_ul_gtp_teid: u32,
}

/// The DRBs set up for a PDU session.
#[derive(Debug, Clone, PartialEq, Eq)]
pub struct E1apPduSessionResponseItem {
    pub pdu_session_id: u8,
    pub drb_setup_list: Vec<E1apDrbSetupResponseItem>,
}

/// Bearer Context Setup Request (CU-CP to CU-UP).
#[derive(Debug, Clone, PartialEq, Eq)]
pub struct BearerContextSetupRequest {
    pub gnb_cu_cp_ue_e1ap_id: u32,
    pub pdu_sessions: Vec<E1apPduSessionItem>,
}

/// Bearer Context Setup Response (CU-UP to CU-CP).
#[derive(Debug, Clone, PartialEq, Eq)]
pub struct BearerContextSetupResponse {
    pub gnb_cu_cp_ue_e1ap_id: u32,
    pub gnb_cu_up_ue_e1ap_id: u32,
    pub pdu_sessions: Vec<E1apPduSessionResponseItem>,
}

/// Bearer Context Release Command (CU-CP to CU-UP).
#[derive(Debug, Clone, PartialEq, Eq)]
pub struct BearerContextReleaseCommand {
    pub gnb_cu_cp_ue_e1ap_id: u32,
    pub gnb_cu_up_ue_e1ap_id: u32,
    pub cause: &'static str,
}

/// A bearer context, as either side keeps it.
#[derive(Debug, Clone, PartialEq, Eq)]
pub struct E1apBearerContext {
    pub gnb_cu_cp_ue_e1ap_id: u32,
    pub gnb_cu_up_ue_e1ap_id: u32,
    pub pdu_sessions: Vec<E1apPduSessionResponseItem>,
}

/// Response items taken by their session and DRB endpoints.
pub open spec fn sessions_view(v: Seq<E1apPduSessionResponseItem>) -> Seq<(u8, Seq<E1apDrbSetupResponseItem>)> {
    v.map_values(|s: E1apPduSessionResponseItem| (s.pdu_session_id, s.drb_setup_list@))
}

fn copy_sessions(v: &Vec<E1apPduSessionResponseItem>) -> (r: Vec<E1apPduSessionResponseItem>)
    ensures
        sessions_view(r@) == sessions_view(v@),
{
    let mut out: Vec<E1apPduSessionResponseItem> = Vec::new();
    let mut i: usize = 0;
    while i < v.len()
        invariant
            i <= v@.len(),
            sessions_view(out@) == sessions_view(v@.take(i as int)),
        decreases v@.len() - i,
    {
        let s = &v[i];
        let mut drbs: Vec<E1apDrbSetupResponseItem> = Vec::new();
        let mut j: usize = 0;
        while j < s.drb_setup_list.len()
            invariant
                j <= s.drb_setup_list@.len(),
                drbs@ == s.drb_setup_list@.take(j as int),
            decreases s.drb_setup_list@.len() - j,
        {
            drbs.push(s.drb_setup_list[j]);
            j = j + 1;
            assert(drbs@ =~= s.drb_setup_list@.take(j as int));
        }
        assert(s.drb_setup_list@.take(j as int) =~= s.drb_setup_list@);
        let ghost before = out@;
        let item = E1apPduSessionResponseItem { pdu_session_id: s.pdu_session_id, drb_setup_list: drbs };
        out.push(item);
        assert(v@.take(i + 1) =~= v@.take(i as int).push(v@[i as int]));
        assert(sessions_view(out@) =~= sessions_view(before).push((item.pdu_session_id, item.drb_setup_list@)));
        i = i + 1;
        assert(sessions_view(out@) =~= sessions_view(v@.take(i as int)));
    }
    assert(v@.take(i as int) =~= v@);
    out
}

/// The number of DRBs over all sessions.
pub open spec fn drb_count(ss: Seq<E1apPduSessionItem>) -> int
    decreases ss.len(),
{
    if ss.len() == 0 { 0 } else { drb_count(ss.drop_last()) + ss.last().drb_to_setup_list@.len() }
}

/// The endpoints for the DRBs of a session: both tunnels at `ip`, the DRB at position `j`
/// taking tunnel identifiers `teid + 2j` (F1-U downlink) and `teid + 2j + 1` (N3 uplink).
pub open spec fn drb_endpoints(drbs: Seq<E1apDrbSetupItem>, ip: Ipv4Address, teid: int) -> Seq<E1apDrbSetupResponseItem> {
    Seq::new(
        drbs.len(),
        |j: int|
            E1apDrbSetupResponseItem {
                drb_id: drbs[j].drb_id,
                cu_up_f1u_dl_transport_ip: ip,
                cu_up_f1u_dl_gtp_teid: (teid + 2 * j) as u32,
                cu_up_ngu_ul_transport_ip: ip,
                cu_up_ngu_ul_gtp_teid: (teid + 2 * j + 1) as u32,
            },
    )
}

/// The endpoints for every session: tunnel identifiers are handed out in order, two per
/// DRB, from `start`.
pub open spec fn session_endpoints(ss: Seq<E1apPduSessionItem>, ip: Ipv4Address, start: int) -> Seq<
    (u8, Seq<E1apDrbSetupResponseItem>),
> {
    Seq::new(
        ss.len(),
        |i: int| (ss[i].pdu_session_id, drb_endpoints(ss[i].drb_to_setup_list@, ip, start + 2 * drb_count(ss.take(i)))),
    )
}

proof fn lemma_drb_count_mono(ss: Seq<E1apPduSessionItem>, i: int)
    requires
        0 <= i <= ss.len(),
    ensures
        0 <= drb_count(ss.take(i)) <= drb_count(ss),
    decreases ss.len() - i,
{
    if i < ss.len() {
        lemma_drb_count_mono(ss, i + 1);
        assert(ss.take(i + 1).drop_last() =~= ss.take(i));
    } else {
        assert(ss.take(i) =~= ss);
    }
    lemma_drb_count_nonneg(ss.take(i));
}

proof fn lemma_drb_count_nonneg(ss: Seq<E1apPduSessionItem>)
    ensures
        drb_count(ss) >= 0,
    decreases ss.len(),
{
    if ss.len() > 0 {
        lemma_drb_count_nonneg(ss.drop_last());
    }
}

/// An E1AP endpoint, CU-CP or CU-UP.
#[derive(Debug, Clone)]
pub struct E1apEngine {
    pub role: E1apRole,
    pub state: E1apState,
    pub gnb_id: u64,
    pub name: String,
    pub bearer_contexts: HashMap<u32, E1apBearerContext>,
    pub up_to_cp_id_map: HashMap<u32, u32>,
    pub next_tx_id: u8,
}

/// The number after `n`, wrapping to zero.
pub open spec fn wrap_u8(n: u8) -> u8 {
    if n == u8::MAX { 0 } else { (n + 1) as u8 }
}

impl E1apEngine {
    /// An idle engine with no bearer context; transactions are numbered from 1.
    pub fn new(role: E1apRole, gnb_id: u64, name: &str) -> (r: Self)
        ensures
            r.role == role,
            r.state == E1apState::Idle,
            r.gnb_id == gnb_id,
            r.name@ == name@,
            r.bearer_contexts@ == Map::<u32, E1apBearerContext>::empty(),
            r.up_to_cp_id_map@ == Map::<u32, u32>::empty(),
            r.next_tx_id == 1,
    {
        E1apEngine {
            role,
            state: E1apState::Idle,
            gnb_id,
            name: owned(name),
            bearer_contexts: HashMap::new(),
            up_to_cp_id_map: HashMap::new(),
            next_tx_id: 1,
        }
    }

    /// Starts E1 setup (CU-UP): the engine waits for the answer; the request carries the
    /// next transaction number, this unit's identity and name, 5GC support and the PLMNs.
    pub fn initiate_e1_setup(&mut self, supported_plmns: Vec<(PlmnId, Vec<Snssai>)>) -> (r: GnbCuUpE1SetupRequest)
        ensures
            final(self).state == E1apState::SetupPending,
            final(self).next_tx_id == wrap_u8(old(self).next_tx_id),
            r.transaction_id == old(self).next_tx_id,
            r.gnb_cu_up_id == old(self).gnb_id,
            r.gnb_cu_up_name is Some,
            r.gnb_cu_up_name.unwrap()@ == old(self).name@,
            r.cn_support,
            r.supported_plmns == supported_plmns,
            final(self).role == old(self).role,
            final(self).gnb_id == old(self).gnb_id,
            final(self).name == old(self).name,
            final(self).bearer_contexts == old(self).bearer_contexts,
            final(self).up_to_cp_id_map == old(self).up_to_cp_id_map,
    {
        self.state = E1apState::SetupPending;
        let tx_id = self.next_tx_id;
        self.next_tx_id = self.next_tx_id.wrapping_add(1);
        GnbCuUpE1SetupRequest {
            transaction_id: tx_id,
            gnb_cu_up_id: self.gnb_id,
            gnb_cu_up_name: Some(self.name.clone()),
            cn_support: true,
            supported_plmns,
        }
    }

    /// Handles E1 setup (CU-CP): only a CU-CP answers, and only a request with some PLMN;
    /// then the interface is active and the answer carries this unit's name. A failure
    /// changes nothing.
    pub fn handle_e1_setup_request(&mut self, req: &GnbCuUpE1SetupRequest) -> (r: Result<
        GnbCuUpE1SetupResponse,
        GnbCuUpE1SetupFailure,
    >)
        ensures
            old(self).role != E1apRole::CuCp ==> (r matches Err(f) && f.transaction_id == req.transaction_id && f.cause@
                == "Only CU-CP can process GnbCuUpE1SetupRequest"@ && *final(self) == *old(self)),
            old(self).role == E1apRole::CuCp && req.supported_plmns@.len() == 0 ==> (r matches Err(f) && f.transaction_id
                == req.transaction_id && f.cause@ == "No supported PLMNs provided by CU-UP"@ && *final(self) == *old(self)),
            old(self).role == E1apRole::CuCp && req.supported_plmns@.len() > 0 ==> (r matches Ok(resp)
                && resp.transaction_id == req.transaction_id && resp.gnb_cu_cp_name is Some
                && resp.gnb_cu_cp_name.unwrap()@ == old(self).name@ && *final(self) == (E1apEngine {
                state: E1apState::Active,
                ..*old(self)
            })),
    {
        if self.role != E1apRole::CuCp {
            return Err(
                GnbCuUpE1SetupFailure {
                    transaction_id: req.transaction_id,
                    cause: "Only CU-CP can process GnbCuUpE1SetupRequest",
                },
            );
        }
        if req.supported_plmns.len() == 0 {
            return Err(
                GnbCuUpE1SetupFailure { transaction_id: req.transaction_id, cause: "No supported PLMNs provided by CU-UP" },
            );
        }
        self.state = E1apState::Active;
        Ok(GnbCuUpE1SetupResponse { transaction_id: req.transaction_id, gnb_cu_cp_name: Some(self.name.clone()) })
    }

    /// Handles the setup answer (CU-UP waiting for one): the interface is active.
    /// Otherwise an error, and nothing changes.
    pub fn handle_e1_setup_response(&mut self, _resp: &GnbCuUpE1SetupResponse) -> (r: Result<(), &'static str>)
        ensures
            old(self).role != E1apRole::CuUp ==> (r matches Err(e) && e@ == "Only CU-UP can process GnbCuUpE1SetupResponse"@
                && *final(self) == *old(self)),
            old(self).role == E1apRole::CuUp && old(self).state != E1apState::SetupPending ==> (r matches Err(e) && e@
                == "Received GnbCuUpE1SetupResponse while not in SetupPending state"@ && *final(self) == *old(self)),
            old(self).role == E1apRole::CuUp && old(self).state == E1apState::SetupPending ==> (r is Ok && *final(self)
                == (E1apEngine { state: E1apState::Active, ..*old(self) })),
    {
        if self.role != E1apRole::CuUp {
            return Err("Only CU-UP can process GnbCuUpE1SetupResponse");
        }
        if self.state != E1apState::SetupPending {
            return Err("Received GnbCuUpE1SetupResponse while not in SetupPending state");
        }
        self.state = E1apState::Active;
        Ok(())
    }

    /// Builds a bearer context setup request (active interface only).
    pub fn build_bearer_context_setup_request(&self, cp_ue_id: u32, pdu_sessions: Vec<E1apPduSessionItem>) -> (r:
        Result<BearerContextSetupRequest, &'static str>)
        ensures
            self.state != E1apState::Active ==> (r matches Err(e) && e@
                == "Cannot setup Bearer Context: E1 interface is not active"@),
            self.state == E1apState::Active ==> r == Ok::<BearerContextSetupRequest, &'static str>(
                BearerContextSetupRequest { gnb_cu_cp_ue_e1ap_id: cp_ue_id, pdu_sessions },
            ),
    {
        if self.state != E1apState::Active {
            return Err("Cannot setup Bearer Context: E1 interface is not active");
        }
        Ok(BearerContextSetupRequest { gnb_cu_cp_ue_e1ap_id: cp_ue_id, pdu_sessions })
    }

    /// Sets up a bearer context (CU-UP): the CU-UP identifier is the CU-CP's plus 500,
    /// and every DRB gets F1-U and N3 endpoints at `cu_up_transport_ip` (see
    /// `session_endpoints`). The context is kept under the CU-CP identifier, and the CU-UP
    /// identifier leads to it. Only a CU-UP does this; otherwise an error, and nothing
    /// changes.
    pub fn handle_bearer_context_setup_request(
        &mut self,
        req: &BearerContextSetupRequest,
        cu_up_transport_ip: Ipv4Address,
        starting_teid: u32,
    ) -> (r: Result<BearerContextSetupResponse, &'static str>)
        requires
            old(self).role == E1apRole::CuUp ==> req.gnb_cu_cp_ue_e1ap_id + 500 <= u32::MAX,
            old(self).role == E1apRole::CuUp ==> starting_teid + 2 * drb_count(req.pdu_sessions@) <= u32::MAX,
        ensures
            old(self).role != E1apRole::CuUp ==> (r matches Err(e) && e@ == "Only CU-UP can process BearerContextSetupRequest"@
                && *final(self) == *old(self)),
            old(self).role == E1apRole::CuUp ==> (r matches Ok(resp) && {
                let up = (req.gnb_cu_cp_ue_e1ap_id + 500) as u32;
                let cp = req.gnb_cu_cp_ue_e1ap_id;
                let ends = session_endpoints(req.pdu_sessions@, cu_up_transport_ip, starting_teid as int);
                &&& resp.gnb_cu_cp_ue_e1ap_id == cp
                &&& resp.gnb_cu_up_ue_e1ap_id == up
                &&& sessions_view(resp.pdu_sessions@) == ends
                &&& final(self).bearer_contexts@.dom() == old(self).bearer_contexts@.dom().insert(cp)
                &&& forall|k: u32| k != cp ==> #[trigger] final(self).bearer_contexts@.get(k) == old(self).bearer_contexts@.get(k)
                &&& final(self).bearer_contexts@[cp].gnb_cu_cp_ue_e1ap_id == cp
                &&& final(self).bearer_contexts@[cp].gnb_cu_up_ue_e1ap_id == up
                &&& sessions_view(final(self).bearer_contexts@[cp].pdu_sessions@) == ends
                &&& final(self).up_to_cp_id_map@ == old(self).up_to_cp_id_map@.insert(up, cp)
                &&& final(self).role == old(self).role
                &&& final(self).state == old(self).state
                &&& final(self).gnb_id == old(self).gnb_id
                &&& final(self).name == old(self).name
                &&& final(self).next_tx_id == old(self).next_tx_id
            }),
    {
        if self.role != E1apRole::CuUp {
            return Err("Only CU-UP can process BearerContextSetupRequest");
        }
        let up_ue_id = req.gnb_cu_cp_ue_e1ap_id + 500;
        let ghost ss = req.pdu_sessions@;
        let ghost ends = session_endpoints(ss, cu_up_transport_ip, starting_teid as int);
        let mut cur_teid: u32 = starting_teid;
        let mut list: Vec<E1apPduSessionResponseItem> = Vec::new();
        let mut i: usize = 0;
        while i < req.pdu_sessions.len()
            invariant
                ss == req.pdu_sessions@,
                ends == session_endpoints(ss, cu_up_transport_ip, starting_teid as int),
                starting_teid + 2 * drb_count(ss) <= u32::MAX,
                i <= ss.len(),
                cur_teid == starting_teid + 2 * drb_count(ss.take(i as int)),
                sessions_view(list@) == ends.take(i as int),
            decreases ss.len() - i,
        {
            let sess = &req.pdu_sessions[i];
            let ghost base = cur_teid as int;
            proof {
                lemma_drb_count_mono(ss, i + 1);
                assert(ss.take(i + 1).drop_last() =~= ss.take(i as int));
                assert(ss.take(i + 1).last() == ss[i as int]);
            }
            let ghost drbs_in = sess.drb_to_setup_list@;
            let mut drbs: Vec<E1apDrbSetupResponseItem> = Vec::new();
            let mut j: usize = 0;
            while j < sess.drb_to_setup_list.len()
                invariant
                    drbs_in == sess.drb_to_setup_list@,
                    j <= drbs_in.len(),
                    base + 2 * drbs_in.len() <= u32::MAX,
                    cur_teid == base + 2 * j,
                    drbs@ == drb_endpoints(drbs_in, cu_up_transport_ip, base).take(j as int),
                decreases drbs_in.len() - j,
            {
                let d = &sess.drb_to_setup_list[j];
                drbs.push(
                    E1apDrbSetupResponseItem {
                        drb_id: d.drb_id,
                        cu_up_f1u_dl_transport_ip: cu_up_transport_ip,
                        cu_up_f1u_dl_gtp_teid: cur_teid,
                        cu_up_ngu_ul_transport_ip: cu_up_transport_ip,
                        cu_up_ngu_ul_gtp_teid: cur_teid + 1,
                    },
                );
                cur_teid = cur_teid + 2;
                j = j + 1;
                assert(drbs@ =~= drb_endpoints(drbs_in, cu_up_transport_ip, base).take(j as int));
            }
            assert(drb_endpoints(drbs_in, cu_up_transport_ip, base).take(j as int) =~= drb_endpoints(
                drbs_in,
                cu_up_transport_ip,
                base,
            ));
            let ghost before = list@;
            let item = E1apPduSessionResponseItem { pdu_session_id: sess.pdu_session_id, drb_setup_list: drbs };
            list.push(item);
            assert(sessions_view(list@) =~= sessions_view(before).push((item.pdu_session_id, item.drb_setup_list@)));
            i = i + 1;
            assert(ends[i - 1] == (ss[i - 1].pdu_session_id, drb_endpoints(ss[i - 1].drb_to_setup_list@, cu_up_transport_ip, base)));
            assert(sessions_view(list@) =~= ends.take(i as int));
        }
        assert(ends.take(i as int) =~= ends);
        let ctx = E1apBearerContext {
            gnb_cu_cp_ue_e1ap_id: req.gnb_cu_cp_ue_e1ap_id,
            gnb_cu_up_ue_e1ap_id: up_ue_id,
            pdu_sessions: copy_sessions(&list),
        };
        self.bearer_contexts.insert(req.gnb_cu_cp_ue_e1ap_id, ctx);
        self.up_to_cp_id_map.insert(up_ue_id, req.gnb_cu_cp_ue_e1ap_id);
        assert(self.bearer_contexts@.dom() =~= old(self).bearer_contexts@.dom().insert(req.gnb_cu_cp_ue_e1ap_id));
        Ok(
            BearerContextSetupResponse {
                gnb_cu_cp_ue_e1ap_id: req.gnb_cu_cp_ue_e1ap_id,
                gnb_cu_up_ue_e1ap_id: up_ue_id,
                pdu_sessions: list,
            },
        )
    }

    /// Records the CU-UP's answer (CU-CP): the context is kept under the CU-CP
    /// identifier, and the CU-UP identifier leads to it. Otherwise an error, and nothing
    /// changes.
    pub fn handle_bearer_context_setup_response(&mut self, resp: &BearerContextSetupResponse) -> (r: Result<
        (),
        &'static str,
    >)
        ensures
            old(self).role != E1apRole::CuCp ==> (r matches Err(e) && e@ == "Only CU-CP can process BearerContextSetupResponse"@
                && *final(self) == *old(self)),
            old(self).role == E1apRole::CuCp ==> (r is Ok && {
                let cp = resp.gnb_cu_cp_ue_e1ap_id;
                &&& final(self).bearer_contexts@.dom() == old(self).bearer_contexts@.dom().insert(cp)
                &&& forall|k: u32| k != cp ==> #[trigger] final(self).bearer_contexts@.get(k) == old(self).bearer_contexts@.get(k)
                &&& final(self).bearer_contexts@[cp].gnb_cu_cp_ue_e1ap_id == cp
                &&& final(self).bearer_contexts@[cp].gnb_cu_up_ue_e1ap_id == resp.gnb_cu_up_ue_e1ap_id
                &&& sessions_view(final(self).bearer_contexts@[cp].pdu_sessions@) == sessions_view(resp.pdu_sessions@)
                &&& final(self).up_to_cp_id_map@ == old(self).up_to_cp_id_map@.insert(resp.gnb_cu_up_ue_e1ap_id, cp)
                &&& final(self).role == old(self).role
                &&& final(self).state == old(self).state
                &&& final(self).gnb_id == old(self).gnb_id
                &&& final(self).name == old(self).name
                &&& final(self).next_tx_id == old(self).next_tx_id
            }),
    {
        if self.role != E1apRole::CuCp {
            return Err("Only CU-CP can process BearerContextSetupResponse");
        }
        let ctx = E1apBearerContext {
            gnb_cu_cp_ue_e1ap_id: resp.gnb_cu_cp_ue_e1ap_id,
            gnb_cu_up_ue_e1ap_id: resp.gnb_cu_up_ue_e1ap_id,
            pdu_sessions: copy_sessions(&resp.pdu_sessions),
        };
        self.bearer_contexts.insert(resp.gnb_cu_cp_ue_e1ap_id, ctx);
        self.up_to_cp_id_map.insert(resp.gnb_cu_up_ue_e1ap_id, resp.gnb_cu_cp_ue_e1ap_id);
        assert(self.bearer_contexts@.dom() =~= old(self).bearer_contexts@.dom().insert(resp.gnb_cu_cp_ue_e1ap_id));
        Ok(())
    }

    /// The bearer context kept under a CU-CP identifier.
    pub fn lookup_by_cp_ue_id(&self, cp_ue_id: u32) -> (r: Option<&E1apBearerContext>)
        ensures
            match r {
                Some(c) => self.bearer_contexts@.contains_key(cp_ue_id) && *c == self.bearer_contexts@[cp_ue_id],
                None => !self.bearer_contexts@.contains_key(cp_ue_id),
            },
    {
        self.bearer_contexts.get(&cp_ue_id)
    }

    /// The bearer context that a CU-UP identifier leads to.
    pub fn lookup_by_up_ue_id(&self, up_ue_id: u32) -> (r: Option<&E1apBearerContext>)
        ensures
            match r {
                Some(c) => self.up_to_cp_id_map@.contains_key(up_ue_id) && self.bearer_contexts@.contains_key(
                    self.up_to_cp_id_map@[up_ue_id],
                ) && *c == self.bearer_contexts@[self.up_to_cp_id_map@[up_ue_id]],
                None => !self.up_to_cp_id_map@.contains_key(up_ue_id) || !self.bearer_contexts@.contains_key(
                    self.up_to_cp_id_map@[up_ue_id],
                ),
            },
    {
        match self.up_to_cp_id_map.get(&up_ue_id) {
            Some(cp) => self.bearer_contexts.get(cp),
            None => None,
        }
    }

    /// Releases the context kept under a CU-CP identifier, and the CU-UP identifier
    /// that it carried; returns whether there was one.
    pub fn release_bearer_context(&mut self, cp_ue_id: u32) -> (r: bool)
        ensures
            r == old(self).bearer_contexts@.contains_key(cp_ue_id),
            final(self).bearer_contexts@ == old(self).bearer_contexts@.remove(cp_ue_id),
            final(self).up_to_cp_id_map@ == (if r {
                old(self).up_to_cp_id_map@.remove(old(self).bearer_contexts@[cp_ue_id].gnb_cu_up_ue_e1ap_id)
            } else {
                old(self).up_to_cp_id_map@
            }),
            final(self).role == old(self).role,
            final(self).state == old(self).state,
            final(self).gnb_id == old(self).gnb_id,
            final(self).name == old(self).name,
            final(self).next_tx_id == old(self).next_tx_id,
    {
        match self.bearer_contexts.remove(&cp_ue_id) {
            Some(ctx) => {
                let _ = self.up_to_cp_id_map.remove(&ctx.gnb_cu_up_ue_e1ap_id);
                true
            },
            None => false,
        }
    }
}

} // verus!
