//! Diameter S13/S13' to the Equipment Identity Register (3GPP TS 29.272 section 6),
//! Application ID 16777252: ME-Identity-Check (command 324) answered with the
//! equipment's status.
use vstd::prelude::*;
use crate::diameter::{
    DiameterAvp, DiameterHeader, DiameterMessage, mandatory_avp, DIAMETER_FLAG_MANDATORY, DIAMETER_FLAG_PROXIABLE,
    DIAMETER_FLAG_VENDOR_SPECIFIC, DIAMETER_SUCCESS,
};
use crate::diameter_gx::{gx_avp, VENDOR_3GPP};
use crate::table::StrTable;
use crate::text::owned;
use crate::wire::{push_u32, u32_bytes};

verus! {

pub const DIAMETER_APPLICATION_S13: u32 = 16777252;

pub const DIAMETER_CMD_ME_IDENTITY_CHECK: u32 = 324;

pub const AVP_TERMINAL_INFORMATION: u32 = 1401;
pub const AVP_IMEI: u32 = 1402;
pub const AVP_SOFTWARE_VERSION: u32 = 1403;
pub const AVP_EQUIPMENT_STATUS: u32 = 1445;

/// Equipment-Status (AVP 1445).
#[derive(Debug, Clone, Copy, PartialEq, Eq, Hash, Structural)]
pub enum EquipmentStatus {
    /// May use the network.
    Whitelisted,
    /// Barred, such as stolen equipment.
    Blacklisted,
    /// Under observation.
    Greylisted,
}

pub open spec fn status_code(s: EquipmentStatus) -> u32 {
    match s {
        EquipmentStatus::Whitelisted => 0,
        EquipmentStatus::Blacklisted => 1,
        EquipmentStatus::Greylisted => 2,
    }
}

/// The status of a code: 1 blacklisted, 2 greylisted, anything else whitelisted.
pub open spec fn status_of(v: u32) -> EquipmentStatus {
    if v == 1 {
        EquipmentStatus::Blacklisted
    } else if v == 2 {
        EquipmentStatus::Greylisted
    } else {
        EquipmentStatus::Whitelisted
    }
}

impl EquipmentStatus {
    pub fn from_u32(val: u32) -> (r: Self)
        ensures
            r == status_of(val),
    {
        match val {
            1 => EquipmentStatus::Blacklisted,
            2 => EquipmentStatus::Greylisted,
            _ => EquipmentStatus::Whitelisted,
        }
    }

    pub fn as_u32(self) -> (r: u32)
        ensures
            r == status_code(self),
    {
        match self {
            EquipmentStatus::Whitelisted => 0,
            EquipmentStatus::Blacklisted => 1,
            EquipmentStatus::Greylisted => 2,
        }
    }
}

/// Every status survives its code.
pub proof fn lemma_status_code_roundtrip(s: EquipmentStatus)
    ensures
        status_of(status_code(s)) == s,
{
}

/// The EIR: a status per IMEI (unknown ones are whitelisted), and how many checks it
/// answered and how many of them found blacklisted equipment.
#[derive(Debug, Clone)]
pub struct EirS13Engine {
    pub imei_status_db: StrTable<EquipmentStatus>,
    pub total_checks_count: usize,
    pub blacklisted_drops_count: usize,
}

/// The status recorded for an IMEI, whitelisted where there is none.
pub open spec fn recorded_status(t: StrTable<EquipmentStatus>, imei: Seq<char>) -> EquipmentStatus {
    if t@.dom().contains(imei) { t@[imei] } else { EquipmentStatus::Whitelisted }
}

/// The header of an S13 answer.
pub open spec fn s13_answer_header() -> DiameterHeader {
    DiameterHeader {
        version: 1,
        length: 0,
        flags: DIAMETER_FLAG_PROXIABLE,
        command_code: DIAMETER_CMD_ME_IDENTITY_CHECK,
        application_id: DIAMETER_APPLICATION_S13,
        hop_by_hop_id: 1,
        end_to_end_id: 1,
    }
}

impl Default for EirS13Engine {
    fn default() -> (r: Self)
        ensures
            r.imei_status_db.wf(),
            r.imei_status_db@ == Map::<Seq<char>, EquipmentStatus>::empty(),
            r.total_checks_count == 0,
            r.blacklisted_drops_count == 0,
    {
        EirS13Engine::new()
    }
}

impl EirS13Engine {
    pub fn new() -> (r: Self)
        ensures
            r.imei_status_db.wf(),
            r.imei_status_db@ == Map::<Seq<char>, EquipmentStatus>::empty(),
            r.total_checks_count == 0,
            r.blacklisted_drops_count == 0,
    {
        EirS13Engine { imei_status_db: StrTable::new(), total_checks_count: 0, blacklisted_drops_count: 0 }
    }

    /// Records the status of an IMEI.
    pub fn set_imei_status(&mut self, imei: &str, status: EquipmentStatus)
        requires
            old(self).imei_status_db.wf(),
        ensures
            final(self).imei_status_db.wf(),
            final(self).imei_status_db@ == old(self).imei_status_db@.insert(imei@, status),
            final(self).total_checks_count == old(self).total_checks_count,
            final(self).blacklisted_drops_count == old(self).blacklisted_drops_count,
    {
        self.imei_status_db.insert(owned(imei), status);
    }

    /// The status of an IMEI (see `recorded_status`); the check is counted, and so is a
    /// blacklisted one.
    pub fn query_imei(&mut self, imei: &str) -> (r: EquipmentStatus)
        requires
            old(self).imei_status_db.wf(),
            old(self).total_checks_count < usize::MAX,
            old(self).blacklisted_drops_count < usize::MAX,
        ensures
            r == recorded_status(old(self).imei_status_db, imei@),
            final(self).imei_status_db == old(self).imei_status_db,
            final(self).total_checks_count == old(self).total_checks_count + 1,
            final(self).blacklisted_drops_count == old(self).blacklisted_drops_count + (if r
                == EquipmentStatus::Blacklisted {
                1int
            } else {
                0int
            }),
    {
        self.total_checks_count = self.total_checks_count + 1;
        let status = match self.imei_status_db.get(imei) {
            Some(s) => *s,
            None => EquipmentStatus::Whitelisted,
        };
        if status == EquipmentStatus::Blacklisted {
            self.blacklisted_drops_count = self.blacklisted_drops_count + 1;
        }
        status
    }

    /// Answers an ME-Identity-Check-Request: success, with the equipment's status (see
    /// `query_imei`) in an Equipment-Status AVP.
    pub fn handle_ecr(&mut self, imei: &str) -> (r: DiameterMessage)
        requires
            old(self).imei_status_db.wf(),
            old(self).total_checks_count < usize::MAX,
            old(self).blacklisted_drops_count < usize::MAX,
        ensures
            ({
                let s = recorded_status(old(self).imei_status_db, imei@);
                &&& final(self).imei_status_db == old(self).imei_status_db
                &&& final(self).total_checks_count == old(self).total_checks_count + 1
                &&& final(self).blacklisted_drops_count == old(self).blacklisted_drops_count + (if s
                    == EquipmentStatus::Blacklisted {
                    1int
                } else {
                    0int
                })
                &&& r.header == s13_answer_header()
                &&& r@.avps == seq![
                    mandatory_avp(268, u32_bytes(DIAMETER_SUCCESS)),
                    gx_avp(AVP_EQUIPMENT_STATUS, u32_bytes(status_code(s))),
                ]
            }),
    {
        let status = self.query_imei(imei);
        let mut eca = DiameterMessage::new_answer(DIAMETER_CMD_ME_IDENTITY_CHECK, DIAMETER_APPLICATION_S13, 1, 1);
        eca.add_avp(DiameterAvp::new_u32(268, DIAMETER_SUCCESS));
        let mut val: Vec<u8> = Vec::new();
        push_u32(&mut val, status.as_u32());
        assert(val@ =~= u32_bytes(status_code(status)));
        let flags = DIAMETER_FLAG_MANDATORY | DIAMETER_FLAG_VENDOR_SPECIFIC;
        assert(DIAMETER_FLAG_MANDATORY | DIAMETER_FLAG_VENDOR_SPECIFIC == 0xC0u8) by (bit_vector);
        eca.add_avp(DiameterAvp::new_vendor(AVP_EQUIPMENT_STATUS, flags, VENDOR_3GPP, val.as_slice()));
        assert(eca@.avps =~= seq![
            mandatory_avp(268, u32_bytes(DIAMETER_SUCCESS)),
            gx_avp(AVP_EQUIPMENT_STATUS, u32_bytes(status_code(status))),
        ]);
        eca
    }
}

} // verus!
