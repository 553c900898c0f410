//! S6c (SMS-GMSC/IP-SM-GW to HSS): routing information for short messages and delivery
//! status reports.
use vstd::prelude::*;
use crate::net::Ipv4Address;
use crate::table::{StrTable, map_get};

verus! {

pub const DIAMETER_APPLICATION_S6C: u32 = 16777312;
pub const DIAMETER_CMD_SEND_ROUTING_INFO_FOR_SM: u32 = 8388647;
pub const DIAMETER_CMD_REPORT_SM_DELIVERY_STATUS: u32 = 8388648;

#[derive(Debug, Clone, Copy, PartialEq, Eq, Structural)]
pub enum S6cServingNodeType {
    Mme,
    Sgsn,
    Smsf,
}

#[derive(Debug, Clone, PartialEq, Eq)]
pub struct S6cServingNodeInfo {
    pub node_type: S6cServingNodeType,
    pub node_fqdn: String,
    pub node_ip: Ipv4Address,
}

/// Whether two serving-node records hold the same values.
pub open spec fn same_node(a: S6cServingNodeInfo, b: S6cServingNodeInfo) -> bool {
    a.node_type == b.node_type && a.node_fqdn@ == b.node_fqdn@ && a.node_ip == b.node_ip
}

fn copy_node(n: &S6cServingNodeInfo) -> (r: S6cServingNodeInfo)
    ensures
        same_node(r, *n),
{
    S6cServingNodeInfo { node_type: n.node_type, node_fqdn: n.node_fqdn.clone(), node_ip: n.node_ip }
}

#[derive(Debug, Clone, PartialEq, Eq)]
pub enum S6cAvp {
    UserName(String),
    ServingNode(S6cServingNodeInfo),
    SmDeliveryOutcome(u32),
    ResultCode(u32),
}

#[derive(Debug, Clone, PartialEq, Eq)]
pub struct S6cMessage {
    pub command_code: u32,
    pub is_request: bool,
    pub application_id: u32,
    pub session_id: String,
    pub avps: Vec<S6cAvp>,
}

/// The first User-Name.
pub open spec fn first_user_name(avps: Seq<S6cAvp>) -> Option<Seq<char>>
    decreases avps.len(),
{
    if avps.len() == 0 {
        None
    } else if let S6cAvp::UserName(s) = avps[0] {
        Some(s@)
    } else {
        first_user_name(avps.skip(1))
    }
}

fn find_user_name(avps: &Vec<S6cAvp>) -> (r: Option<&String>)
    ensures
        match r {
            Some(s) => first_user_name(avps@) == Some(s@),
            None => first_user_name(avps@) is None,
        },
{
    let mut i: usize = 0;
    assert(avps@.skip(0) =~= avps@);
    while i < avps.len()
        invariant
            i <= avps@.len(),
            first_user_name(avps@) == first_user_name(avps@.skip(i as int)),
        decreases avps@.len() - i,
    {
        assert(avps@.skip(i as int)[0] == avps@[i as int]);
        assert(avps@.skip(i as int).skip(1) =~= avps@.skip(i + 1));
        if let S6cAvp::UserName(s) = &avps[i] {
            return Some(s);
        }
        i = i + 1;
    }
    None
}

/// An answer to `req`: same command, application and session.
pub open spec fn answers(r: S6cMessage, req: S6cMessage) -> bool {
    &&& r.command_code == req.command_code
    &&& !r.is_request
    &&& r.application_id == req.application_id
    &&& r.session_id@ == req.session_id@
}

impl S6cMessage {
    /// A Send-Routing-Info-for-SM request for a subscriber.
    pub fn new_srr(session_id: &str, msisdn_or_imsi: &str) -> (r: Self)
        ensures
            r.command_code == DIAMETER_CMD_SEND_ROUTING_INFO_FOR_SM,
            r.is_request,
            r.application_id == DIAMETER_APPLICATION_S6C,
            r.session_id@ == session_id@,
            r.avps@.len() == 1,
            r.avps@[0] matches S6cAvp::UserName(u) && u@ == msisdn_or_imsi@,
    {
        S6cMessage {
            command_code: DIAMETER_CMD_SEND_ROUTING_INFO_FOR_SM,
            is_request: true,
            application_id: DIAMETER_APPLICATION_S6C,
            session_id: session_id.to_owned(),
            avps: vec![S6cAvp::UserName(msisdn_or_imsi.to_owned())],
        }
    }

    /// A Report-SM-Delivery-Status request with its outcome.
    pub fn new_rdr(session_id: &str, msisdn_or_imsi: &str, outcome: u32) -> (r: Self)
        ensures
            r.command_code == DIAMETER_CMD_REPORT_SM_DELIVERY_STATUS,
            r.is_request,
            r.application_id == DIAMETER_APPLICATION_S6C,
            r.session_id@ == session_id@,
            r.avps@.len() == 2,
            r.avps@[0] matches S6cAvp::UserName(u) && u@ == msisdn_or_imsi@,
            r.avps@[1] == S6cAvp::SmDeliveryOutcome(outcome),
    {
        S6cMessage {
            command_code: DIAMETER_CMD_REPORT_SM_DELIVERY_STATUS,
            is_request: true,
            application_id: DIAMETER_APPLICATION_S6C,
            session_id: session_id.to_owned(),
            avps: vec![S6cAvp::UserName(msisdn_or_imsi.to_owned()), S6cAvp::SmDeliveryOutcome(outcome)],
        }
    }

    /// The answer to `req` with one Result-Code.
    pub fn new_answer(req: &S6cMessage, result_code: u32) -> (r: Self)
        ensures
            answers(r, *req),
            r.avps@ == seq![S6cAvp::ResultCode(result_code)],
    {
        S6cMessage {
            command_code: req.command_code,
            is_request: false,
            application_id: req.application_id,
            session_id: req.session_id.clone(),
            avps: vec![S6cAvp::ResultCode(result_code)],
        }
    }

    pub fn add_avp(&mut self, avp: S6cAvp)
        ensures
            final(self).avps@ == old(self).avps@.push(avp),
            final(self).command_code == old(self).command_code,
            final(self).is_request == old(self).is_request,
            final(self).application_id == old(self).application_id,
            final(self).session_id == old(self).session_id,
    {
        self.avps.push(avp);
    }
}

#[derive(Debug, Clone)]
pub struct S6cHssEngine {
    pub hss_realm: String,
    pub routing_registry: StrTable<S6cServingNodeInfo>,
    pub total_srr_requests: u64,
    pub total_rdr_reports: u64,
}

impl S6cHssEngine {
    pub fn new(hss_realm: &str) -> (r: Self)
        ensures
            r.hss_realm@ == hss_realm@,
            r.routing_registry.wf(),
            r.routing_registry@ == Map::<Seq<char>, S6cServingNodeInfo>::empty(),
            r.total_srr_requests == 0,
            r.total_rdr_reports == 0,
    {
        S6cHssEngine {
            hss_realm: hss_realm.to_owned(),
            routing_registry: StrTable::new(),
            total_srr_requests: 0,
            total_rdr_reports: 0,
        }
    }

    /// Records the serving node of `user_id`.
    pub fn register_subscriber_location(&mut self, user_id: &str, info: S6cServingNodeInfo)
        requires
            old(self).routing_registry.wf(),
        ensures
            final(self).routing_registry.wf(),
            final(self).routing_registry@ == old(self).routing_registry@.insert(user_id@, info),
            final(self).total_srr_requests == old(self).total_srr_requests,
            final(self).total_rdr_reports == old(self).total_rdr_reports,
    {
        self.routing_registry.insert(user_id.to_owned(), info);
    }

    /// Answers a routing query: 2001 with the serving node registered for the first User-Name
    /// (the empty name when there is none), or 5001 when none is registered.
    pub fn handle_srr(&mut self, srr: &S6cMessage) -> (r: S6cMessage)
        requires
            old(self).routing_registry.wf(),
            old(self).total_srr_requests < u64::MAX,
        ensures
            final(self).routing_registry == old(self).routing_registry,
            final(self).total_srr_requests == old(self).total_srr_requests + 1,
            final(self).total_rdr_reports == old(self).total_rdr_reports,
            answers(r, *srr),
            ({
                let user = match first_user_name(srr.avps@) {
                    Some(u) => u,
                    None => Seq::<char>::empty(),
                };
                match map_get(old(self).routing_registry@, user) {
                    Some(info) => r.avps@.len() == 2 && r.avps@[0] == S6cAvp::ResultCode(2001)
                        && (r.avps@[1] matches S6cAvp::ServingNode(n) && same_node(n, info)),
                    None => r.avps@ == seq![S6cAvp::ResultCode(5001)],
                }
            }),
    {
        self.total_srr_requests = self.total_srr_requests + 1;
        let found = match find_user_name(&srr.avps) {
            Some(u) => self.routing_registry.get(u.as_str()),
            None => self.routing_registry.get(""),
        };
        proof {
            assert(""@.len() == 0) by {
                reveal_strlit("");
            }
            assert(""@ =~= Seq::<char>::empty());
        }
        match found {
            Some(info) => {
                let mut sra = S6cMessage::new_answer(srr, 2001);
                sra.add_avp(S6cAvp::ServingNode(copy_node(info)));
                sra
            },
            None => S6cMessage::new_answer(srr, 5001),
        }
    }

    /// Acknowledges a delivery report with 2001.
    pub fn handle_rdr(&mut self, rdr: &S6cMessage) -> (r: S6cMessage)
        requires
            old(self).total_rdr_reports < u64::MAX,
        ensures
            final(self).routing_registry == old(self).routing_registry,
            final(self).total_rdr_reports == old(self).total_rdr_reports + 1,
            final(self).total_srr_requests == old(self).total_srr_requests,
            answers(r, *rdr),
            r.avps@ == seq![S6cAvp::ResultCode(2001)],
    {
        self.total_rdr_reports = self.total_rdr_reports + 1;
        S6cMessage::new_answer(rdr, 2001)
    }
}

} // verus!
