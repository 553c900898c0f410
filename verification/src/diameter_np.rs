//! Np (RCAF to PCRF): RAN user-plane congestion reports, kept per eNodeB cell.
use vstd::prelude::*;
use std::collections::HashMap;

verus! {

broadcast use vstd::std_specs::hash::group_hash_axioms;

pub const DIAMETER_APPLICATION_NP: u32 = 16777342;
pub const DIAMETER_CMD_NON_AGGREGATED_RUCI_REPORT: u32 = 8388725;

#[derive(Debug, Clone, Copy, PartialEq, Eq, Structural)]
pub enum RanCongestionLevel {
    NotCongested,
    Low,
    Medium,
    High,
}

#[derive(Debug, Clone, Copy, PartialEq, Eq, Structural)]
pub struct RanCongestionInfo {
    pub enodeb_id: u32,
    pub cell_id: u32,
    pub level: RanCongestionLevel,
}

#[derive(Debug, Clone, PartialEq, Eq)]
pub enum NpAvp {
    UserName(String),
    RanCongestion(RanCongestionInfo),
    ResultCode(u32),
}

#[derive(Debug, Clone, PartialEq, Eq)]
pub struct NpMessage {
    pub command_code: u32,
    pub is_request: bool,
    pub application_id: u32,
    pub session_id: String,
    pub avps: Vec<NpAvp>,
}

impl NpMessage {
    /// A congestion report for a subscriber.
    pub fn new_ncr(session_id: &str, imsi: &str, info: RanCongestionInfo) -> (r: Self)
        ensures
            r.command_code == DIAMETER_CMD_NON_AGGREGATED_RUCI_REPORT,
            r.is_request,
            r.application_id == DIAMETER_APPLICATION_NP,
            r.session_id@ == session_id@,
            r.avps@.len() == 2,
            r.avps@[0] matches NpAvp::UserName(u) && u@ == imsi@,
            r.avps@[1] == NpAvp::RanCongestion(info),
    {
        NpMessage {
            command_code: DIAMETER_CMD_NON_AGGREGATED_RUCI_REPORT,
            is_request: true,
            application_id: DIAMETER_APPLICATION_NP,
            session_id: session_id.to_owned(),
            avps: vec![NpAvp::UserName(imsi.to_owned()), NpAvp::RanCongestion(info)],
        }
    }

    /// The answer to `req` with one Result-Code.
    pub fn new_nca(req: &NpMessage, result_code: u32) -> (r: Self)
        ensures
            r.command_code == req.command_code,
            !r.is_request,
            r.application_id == req.application_id,
            r.session_id@ == req.session_id@,
            r.avps@ == seq![NpAvp::ResultCode(result_code)],
    {
        NpMessage {
            command_code: req.command_code,
            is_request: false,
            application_id: req.application_id,
            session_id: req.session_id.clone(),
            avps: vec![NpAvp::ResultCode(result_code)],
        }
    }
}

/// The map key of a cell: the eNodeB number in the high 32 bits, the cell in the low ones.
pub open spec fn cell_key(enodeb_id: u32, cell_id: u32) -> u64 {
    (enodeb_id as int * 0x1_0000_0000 + cell_id as int) as u64
}

fn make_key(enodeb_id: u32, cell_id: u32) -> (r: u64)
    ensures
        r == cell_key(enodeb_id, cell_id),
{
    enodeb_id as u64 * 0x1_0000_0000 + cell_id as u64
}

/// The congestion map after the reports in `avps`, in order; later reports overwrite.
pub open spec fn congestion_after(m: Map<u64, RanCongestionLevel>, avps: Seq<NpAvp>) -> Map<u64, RanCongestionLevel>
    decreases avps.len(),
{
    if avps.len() == 0 {
        m
    } else {
        let before = congestion_after(m, avps.drop_last());
        if let NpAvp::RanCongestion(info) = avps.last() {
            before.insert(cell_key(info.enodeb_id, info.cell_id), info.level)
        } else {
            before
        }
    }
}

#[derive(Debug, Clone)]
pub struct RcafNpEngine {
    pub pcrf_realm: String,
    pub cell_congestion_map: HashMap<u64, RanCongestionLevel>,
    pub total_ncr_reports: u64,
}

impl RcafNpEngine {
    pub fn new(pcrf_realm: &str) -> (r: Self)
        ensures
            r.pcrf_realm@ == pcrf_realm@,
            r.cell_congestion_map@ == Map::<u64, RanCongestionLevel>::empty(),
            r.total_ncr_reports == 0,
    {
        RcafNpEngine { pcrf_realm: pcrf_realm.to_owned(), cell_congestion_map: HashMap::new(), total_ncr_reports: 0 }
    }

    /// Records every congestion report of the request and answers 2001.
    pub fn handle_ncr(&mut self, ncr: &NpMessage) -> (r: NpMessage)
        requires
            old(self).total_ncr_reports < u64::MAX,
        ensures
            final(self).total_ncr_reports == old(self).total_ncr_reports + 1,
            final(self).cell_congestion_map@ == congestion_after(old(self).cell_congestion_map@, ncr.avps@),
            final(self).pcrf_realm == old(self).pcrf_realm,
            r.command_code == ncr.command_code,
            !r.is_request,
            r.application_id == ncr.application_id,
            r.session_id@ == ncr.session_id@,
            r.avps@ == seq![NpAvp::ResultCode(2001)],
    {
        self.total_ncr_reports = self.total_ncr_reports + 1;
        let ghost m0 = self.cell_congestion_map@;
        let mut i: usize = 0;
        while i < ncr.avps.len()
            invariant
                i <= ncr.avps@.len(),
                self.cell_congestion_map@ == congestion_after(m0, ncr.avps@.subrange(0, i as int)),
                self.total_ncr_reports == old(self).total_ncr_reports + 1,
                self.pcrf_realm == old(self).pcrf_realm,
                m0 == old(self).cell_congestion_map@,
            decreases ncr.avps@.len() - i,
        {
            assert(ncr.avps@.subrange(0, i + 1).drop_last() =~= ncr.avps@.subrange(0, i as int));
            if let NpAvp::RanCongestion(info) = &ncr.avps[i] {
                let k = make_key(info.enodeb_id, info.cell_id);
                self.cell_congestion_map.insert(k, info.level);
            }
            i = i + 1;
        }
        assert(ncr.avps@.subrange(0, i as int) =~= ncr.avps@);
        NpMessage::new_nca(ncr, 2001)
    }

    /// The recorded level of a cell, none when no report named it.
    pub fn get_cell_congestion(&self, enodeb_id: u32, cell_id: u32) -> (r: RanCongestionLevel)
        ensures
            r == if self.cell_congestion_map@.dom().contains(cell_key(enodeb_id, cell_id)) {
                self.cell_congestion_map@[cell_key(enodeb_id, cell_id)]
            } else {
                RanCongestionLevel::NotCongested
            },
    {
        let k = make_key(enodeb_id, cell_id);
        match self.cell_congestion_map.get(&k) {
            Some(l) => *l,
            None => RanCongestionLevel::NotCongested,
        }
    }
}

} // verus!
