//! S13 ME-Identity-Check with a graylist: the EIR's verdict becomes a QoS action (full,
//! dropped or throttled access).
use vstd::prelude::*;
use crate::table::{StrTable, map_get};

verus! {

pub const DIAMETER_APPLICATION_S13: u32 = 16777252;
pub const DIAMETER_CMD_ME_IDENTITY_CHECK: u32 = 324;

#[derive(Debug, Clone, Copy, PartialEq, Eq, Structural)]
pub enum EirStatus {
    WhiteListed,
    BlackListed,
    GreyListed,
}

#[derive(Debug, Clone, PartialEq, Eq, Structural)]
pub enum EirQosAction {
    FullAccess,
    DropAccess,
    ThrottledAccess { max_kbps: u32 },
}

#[derive(Debug, Clone, PartialEq, Eq)]
pub enum S13GraylistAvp {
    TerminalInformation(String),
    EquipmentStatus(EirStatus),
    ResultCode(u32),
}

#[derive(Debug, Clone, PartialEq, Eq)]
pub struct S13GraylistMessage {
    pub command_code: u32,
    pub is_request: bool,
    pub application_id: u32,
    pub session_id: String,
    pub avps: Vec<S13GraylistAvp>,
}

/// An ECA answering `req`.
pub open spec fn is_eca(r: S13GraylistMessage, req: S13GraylistMessage, code: u32, status: EirStatus) -> bool {
    &&& r.command_code == req.command_code
    &&& !r.is_request
    &&& r.application_id == req.application_id
    &&& r.session_id@ == req.session_id@
    &&& r.avps@ == seq![S13GraylistAvp::ResultCode(code), S13GraylistAvp::EquipmentStatus(status)]
}

impl S13GraylistMessage {
    /// An ME-Identity-Check-Request carrying the IMEI.
    pub fn new_ecr(session_id: &str, imei: &str) -> (r: Self)
        ensures
            r.command_code == DIAMETER_CMD_ME_IDENTITY_CHECK,
            r.is_request,
            r.application_id == DIAMETER_APPLICATION_S13,
            r.session_id@ == session_id@,
            r.avps@.len() == 1,
            r.avps@[0] matches S13GraylistAvp::TerminalInformation(i) && i@ == imei@,
    {
        S13GraylistMessage {
            command_code: DIAMETER_CMD_ME_IDENTITY_CHECK,
            is_request: true,
            application_id: DIAMETER_APPLICATION_S13,
            session_id: session_id.to_owned(),
            avps: vec![S13GraylistAvp::TerminalInformation(imei.to_owned())],
        }
    }

    /// The answer to `req`.
    pub fn new_eca(req: &S13GraylistMessage, result_code: u32, status: EirStatus) -> (r: Self)
        ensures
            is_eca(r, *req, result_code, status),
    {
        S13GraylistMessage {
            command_code: req.command_code,
            is_request: false,
            application_id: req.application_id,
            session_id: req.session_id.clone(),
            avps: vec![S13GraylistAvp::ResultCode(result_code), S13GraylistAvp::EquipmentStatus(status)],
        }
    }
}

/// The first IMEI, or the empty text.
pub open spec fn imei_or_empty(avps: Seq<S13GraylistAvp>) -> Seq<char>
    decreases avps.len(),
{
    if avps.len() == 0 {
        Seq::empty()
    } else if let S13GraylistAvp::TerminalInformation(s) = avps[0] {
        s@
    } else {
        imei_or_empty(avps.skip(1))
    }
}

fn find_imei(avps: &Vec<S13GraylistAvp>) -> (r: String)
    ensures
        r@ == imei_or_empty(avps@),
{
    let mut i: usize = 0;
    assert(avps@.skip(0) =~= avps@);
    while i < avps.len()
        invariant
            i <= avps@.len(),
            imei_or_empty(avps@) == imei_or_empty(avps@.skip(i as int)),
        decreases avps@.len() - i,
    {
        assert(avps@.skip(i as int)[0] == avps@[i as int]);
        assert(avps@.skip(i as int).skip(1) =~= avps@.skip(i + 1));
        if let S13GraylistAvp::TerminalInformation(s) = &avps[i] {
            return s.clone();
        }
        i = i + 1;
    }
    String::new()
}

/// The QoS action for a status: full access, dropped, or throttled to `limit`.
pub open spec fn qos_for(status: EirStatus, limit: u32) -> EirQosAction {
    match status {
        EirStatus::WhiteListed => EirQosAction::FullAccess,
        EirStatus::BlackListed => EirQosAction::DropAccess,
        EirStatus::GreyListed => EirQosAction::ThrottledAccess { max_kbps: limit },
    }
}

#[derive(Debug, Clone)]
pub struct EirGraylistEngine {
    pub eir_realm: String,
    pub imei_database: StrTable<EirStatus>,
    pub graylist_rate_limit_kbps: u32,
    pub total_ecr_checks: u64,
}

impl EirGraylistEngine {
    pub fn new(eir_realm: &str, graylist_rate_limit_kbps: u32) -> (r: Self)
        ensures
            r.eir_realm@ == eir_realm@,
            r.imei_database.wf(),
            r.imei_database@ == Map::<Seq<char>, EirStatus>::empty(),
            r.graylist_rate_limit_kbps == graylist_rate_limit_kbps,
            r.total_ecr_checks == 0,
    {
        EirGraylistEngine {
            eir_realm: eir_realm.to_owned(),
            imei_database: StrTable::new(),
            graylist_rate_limit_kbps,
            total_ecr_checks: 0,
        }
    }

    /// Records `status` for `imei`.
    pub fn set_imei_status(&mut self, imei: &str, status: EirStatus)
        requires
            old(self).imei_database.wf(),
        ensures
            final(self).imei_database.wf(),
            final(self).imei_database@ == old(self).imei_database@.insert(imei@, status),
            final(self).graylist_rate_limit_kbps == old(self).graylist_rate_limit_kbps,
            final(self).total_ecr_checks == old(self).total_ecr_checks,
    {
        self.imei_database.insert(imei.to_owned(), status);
    }

    /// Answers with 2001 and the status of the request's IMEI (whitelisted when unknown), and
    /// returns the matching QoS action.
    pub fn handle_ecr(&mut self, ecr: &S13GraylistMessage) -> (r: (S13GraylistMessage, EirQosAction))
        requires
            old(self).imei_database.wf(),
            old(self).total_ecr_checks < u64::MAX,
        ensures
            final(self).total_ecr_checks == old(self).total_ecr_checks + 1,
            final(self).imei_database == old(self).imei_database,
            final(self).graylist_rate_limit_kbps == old(self).graylist_rate_limit_kbps,
            ({
                let status = match map_get(old(self).imei_database@, imei_or_empty(ecr.avps@)) {
                    Some(s) => s,
                    None => EirStatus::WhiteListed,
                };
                &&& is_eca(r.0, *ecr, 2001, status)
                &&& r.1 == qos_for(status, old(self).graylist_rate_limit_kbps)
            }),
    {
        self.total_ecr_checks = self.total_ecr_checks + 1;
        let imei = find_imei(&ecr.avps);
        let status = match self.imei_database.get(imei.as_str()) {
            Some(s) => *s,
            None => EirStatus::WhiteListed,
        };
        let qos = match status {
            EirStatus::WhiteListed => EirQosAction::FullAccess,
            EirStatus::BlackListed => EirQosAction::DropAccess,
            EirStatus::GreyListed => EirQosAction::ThrottledAccess { max_kbps: self.graylist_rate_limit_kbps },
        };
        (S13GraylistMessage::new_eca(ecr, 2001, status), qos)
    }
}

} // verus!
