//! S13' (MME/SGSN/AMF to EIR): ME-Identity-Check with terminal information, and an EIR that
//! also greylists devices running banned software versions.
use vstd::prelude::*;
use vstd::utf8::encode_utf8;
use crate::table::{StrTable, map_get};
use crate::text::{string_from_utf8_lossy, lossy_chars, str_eq, strings_view};
use crate::diameter_s6b::{field_bytes, push_text_field};
use crate::wire::{read_u16, read_u32, be16_at, be32_at, copy_range};

verus! {

pub const DIAMETER_APPLICATION_S13_PRIME: u32 = 16777252;
pub const DIAMETER_CMD_ME_IDENTITY_CHECK: u32 = 324;
pub const AVP_USER_NAME: u32 = 1;
pub const AVP_RESULT_CODE: u32 = 268;
pub const AVP_TERMINAL_INFORMATION: u32 = 1401;
pub const AVP_IMEI: u32 = 1402;
pub const AVP_SOFTWARE_VERSION: u32 = 1403;
pub const AVP_EQUIPMENT_STATUS: u32 = 1445;

/// Equipment-Status (AVP 1445).
#[derive(Debug, Clone, Copy, PartialEq, Eq, Structural)]
pub enum EquipmentStatus {
    Whitelisted,
    Blacklisted,
    Greylisted,
}

pub open spec fn equipment_code(s: EquipmentStatus) -> u32 {
    match s {
        EquipmentStatus::Whitelisted => 0,
        EquipmentStatus::Blacklisted => 1,
        EquipmentStatus::Greylisted => 2,
    }
}

pub open spec fn equipment_of(v: u32) -> Option<EquipmentStatus> {
    if v == 0 {
        Some(EquipmentStatus::Whitelisted)
    } else if v == 1 {
        Some(EquipmentStatus::Blacklisted)
    } else if v == 2 {
        Some(EquipmentStatus::Greylisted)
    } else {
        None
    }
}

impl EquipmentStatus {
    pub fn as_u32(self) -> (r: u32)
        ensures
            r == equipment_code(self),
    {
        match self {
            Self::Whitelisted => 0,
            Self::Blacklisted => 1,
            Self::Greylisted => 2,
        }
    }

    pub fn from_u32(val: u32) -> (r: Option<Self>)
        ensures
            r == equipment_of(val),
    {
        match val {
            0 => Some(Self::Whitelisted),
            1 => Some(Self::Blacklisted),
            2 => Some(Self::Greylisted),
            _ => None,
        }
    }
}

/// Decoding a status code gives back the status.
pub proof fn lemma_equipment_roundtrip(s: EquipmentStatus)
    ensures
        equipment_of(equipment_code(s)) == Some(s),
{
}

#[derive(Debug, Clone, PartialEq, Eq)]
pub struct TerminalInformation {
    pub imei: String,
    pub software_version: Option<String>,
}

/// The encoding of Terminal-Information: the IMEI, then the software version when present.
pub open spec fn terminal_bytes(t: TerminalInformation) -> Seq<u8> {
    field_bytes(AVP_IMEI, encode_utf8(t.imei@)) + match t.software_version {
        Some(sv) => field_bytes(AVP_SOFTWARE_VERSION, encode_utf8(sv@)),
        None => Seq::empty(),
    }
}

/// Scan of the fields from `off`: the last IMEI and the last software version seen, stopping
/// at a field that does not fit.
pub open spec fn terminal_scan(data: Seq<u8>, off: int, imei: Option<Seq<u8>>, sv: Option<Seq<u8>>) -> (Option<Seq<u8>>, Option<Seq<u8>>)
    decreases data.len() - off,
{
    if off < 0 || off + 6 > data.len() {
        (imei, sv)
    } else {
        let code = be32_at(data, off);
        let len = be16_at(data, off + 4);
        let start = off + 6;
        if start + len > data.len() {
            (imei, sv)
        } else {
            let val = data.subrange(start, start + len);
            if code == AVP_IMEI {
                terminal_scan(data, start + len, Some(val), sv)
            } else if code == AVP_SOFTWARE_VERSION {
                terminal_scan(data, start + len, imei, Some(val))
            } else {
                terminal_scan(data, start + len, imei, sv)
            }
        }
    }
}

/// The decoded IMEI and software version (invalid UTF-8 replaced); no result when the IMEI is
/// missing or empty.
pub open spec fn terminal_parse(data: Seq<u8>) -> Option<(Seq<char>, Option<Seq<char>>)> {
    let (imei, sv) = terminal_scan(data, 0, None, None);
    let imei_chars = match imei {
        Some(b) => lossy_chars(b),
        None => Seq::<char>::empty(),
    };
    if imei_chars.len() == 0 {
        None
    } else {
        Some((imei_chars, match sv {
            Some(b) => Some(lossy_chars(b)),
            None => None,
        }))
    }
}

pub open spec fn opt_bytes(o: Option<Vec<u8>>) -> Option<Seq<u8>> {
    match o {
        Some(v) => Some(v@),
        None => None,
    }
}

pub open spec fn opt_chars(o: Option<String>) -> Option<Seq<char>> {
    match o {
        Some(s) => Some(s@),
        None => None,
    }
}

impl TerminalInformation {
    pub fn serialize(&self) -> (r: Vec<u8>)
        ensures
            r@ == terminal_bytes(*self),
    {
        let mut buf: Vec<u8> = Vec::new();
        push_text_field(&mut buf, AVP_IMEI, &self.imei);
        match &self.software_version {
            Some(sv) => push_text_field(&mut buf, AVP_SOFTWARE_VERSION, sv),
            None => {},
        }
        assert(buf@ =~= terminal_bytes(*self));
        buf
    }

    pub fn parse(data: &[u8]) -> (r: Option<Self>)
        ensures
            match terminal_parse(data@) {
                Some((imei, sv)) => r matches Some(t) && t.imei@ == imei && opt_chars(t.software_version) == sv,
                None => r is None,
            },
    {
        let mut offset: usize = 0;
        let mut imei: Option<Vec<u8>> = None;
        let mut sv: Option<Vec<u8>> = None;
        while data.len() - offset >= 6
            invariant
                offset <= data@.len(),
                terminal_scan(data@, 0, None, None) == terminal_scan(data@, offset as int, opt_bytes(imei), opt_bytes(sv)),
            ensures
                terminal_scan(data@, 0, None, None) == (opt_bytes(imei), opt_bytes(sv)),
            decreases data@.len() - offset,
        {
            let code = read_u32(data, offset);
            let len = read_u16(data, offset + 4) as usize;
            let start = offset + 6;
            if len > data.len() - start {
                break;
            }
            if code == AVP_IMEI {
                imei = Some(copy_range(data, start, start + len));
            } else if code == AVP_SOFTWARE_VERSION {
                sv = Some(copy_range(data, start, start + len));
            }
            offset = start + len;
        }
        let imei_s = match imei {
            Some(b) => string_from_utf8_lossy(b.as_slice()),
            None => String::new(),
        };
        if imei_s.as_str().is_empty() {
            return None;
        }
        let software_version = match sv {
            Some(b) => Some(string_from_utf8_lossy(b.as_slice())),
            None => None,
        };
        Some(TerminalInformation { imei: imei_s, software_version })
    }
}

#[derive(Debug, Clone, PartialEq, Eq)]
pub enum S13PrimeAvp {
    UserName(String),
    TerminalInformation(TerminalInformation),
    EquipmentStatus(EquipmentStatus),
    ResultCode(u32),
}

#[derive(Debug, Clone, PartialEq, Eq)]
pub struct S13PrimeMessage {
    pub command_code: u32,
    pub is_request: bool,
    pub application_id: u32,
    pub session_id: String,
    pub avps: Vec<S13PrimeAvp>,
}

/// The first Terminal-Information.
pub open spec fn first_terminal(avps: Seq<S13PrimeAvp>) -> Option<TerminalInformation>
    decreases avps.len(),
{
    if avps.len() == 0 {
        None
    } else if let S13PrimeAvp::TerminalInformation(t) = avps[0] {
        Some(t)
    } else {
        first_terminal(avps.skip(1))
    }
}

/// An ECA answering `req` with `status` and `code`.
pub open spec fn is_eca(r: S13PrimeMessage, req: S13PrimeMessage, status: EquipmentStatus, code: u32) -> bool {
    &&& r.command_code == req.command_code
    &&& !r.is_request
    &&& r.application_id == req.application_id
    &&& r.session_id@ == req.session_id@
    &&& r.avps@ == seq![S13PrimeAvp::ResultCode(code), S13PrimeAvp::EquipmentStatus(status)]
}

impl S13PrimeMessage {
    /// An ME-Identity-Check-Request: User-Name and Terminal-Information.
    pub fn new_ecr(session_id: &str, user_name: &str, terminal_info: TerminalInformation) -> (r: Self)
        ensures
            r.command_code == DIAMETER_CMD_ME_IDENTITY_CHECK,
            r.is_request,
            r.application_id == DIAMETER_APPLICATION_S13_PRIME,
            r.session_id@ == session_id@,
            r.avps@.len() == 2,
            r.avps@[0] matches S13PrimeAvp::UserName(u) && u@ == user_name@,
            r.avps@[1] == S13PrimeAvp::TerminalInformation(terminal_info),
            first_terminal(r.avps@) == Some(terminal_info),
    {
        let r = S13PrimeMessage {
            command_code: DIAMETER_CMD_ME_IDENTITY_CHECK,
            is_request: true,
            application_id: DIAMETER_APPLICATION_S13_PRIME,
            session_id: session_id.to_owned(),
            avps: vec![S13PrimeAvp::UserName(user_name.to_owned()), S13PrimeAvp::TerminalInformation(terminal_info)],
        };
        proof {
            reveal_with_fuel(first_terminal, 3);
        }
        r
    }

    /// The ME-Identity-Check-Answer to `req`.
    pub fn new_eca(req: &S13PrimeMessage, status: EquipmentStatus, result_code: u32) -> (r: Self)
        ensures
            is_eca(r, *req, status, result_code),
    {
        S13PrimeMessage {
            command_code: req.command_code,
            is_request: false,
            application_id: req.application_id,
            session_id: req.session_id.clone(),
            avps: vec![S13PrimeAvp::ResultCode(result_code), S13PrimeAvp::EquipmentStatus(status)],
        }
    }
}

fn find_terminal(avps: &Vec<S13PrimeAvp>) -> (r: Option<&TerminalInformation>)
    ensures
        match r {
            Some(t) => first_terminal(avps@) == Some(*t),
            None => first_terminal(avps@) is None,
        },
{
    let mut i: usize = 0;
    assert(avps@.skip(0) =~= avps@);
    while i < avps.len()
        invariant
            i <= avps@.len(),
            first_terminal(avps@) == first_terminal(avps@.skip(i as int)),
        decreases avps@.len() - i,
    {
        assert(avps@.skip(i as int)[0] == avps@[i as int]);
        assert(avps@.skip(i as int).skip(1) =~= avps@.skip(i + 1));
        if let S13PrimeAvp::TerminalInformation(t) = &avps[i] {
            return Some(t);
        }
        i = i + 1;
    }
    None
}

#[derive(Debug, Clone)]
pub struct EirS13PrimeEngine {
    pub eir_realm: String,
    pub equipment_db: StrTable<EquipmentStatus>,
    pub banned_software_versions: Vec<String>,
    pub total_checks: u64,
    pub blacklisted_hits: u64,
}

/// The status the EIR gives a terminal: greylisted when its software version is banned, else
/// the registered status of its IMEI, whitelisted when unregistered.
pub open spec fn terminal_status(db: Map<Seq<char>, EquipmentStatus>, banned: Seq<Seq<char>>, t: TerminalInformation) -> EquipmentStatus {
    if t.software_version matches Some(sv) && banned.contains(sv@) {
        EquipmentStatus::Greylisted
    } else {
        match map_get(db, t.imei@) {
            Some(s) => s,
            None => EquipmentStatus::Whitelisted,
        }
    }
}

fn contains_string(v: &Vec<String>, s: &String) -> (r: bool)
    ensures
        r == strings_view(v@).contains(s@),
{
    let mut i: usize = 0;
    while i < v.len()
        invariant
            i <= v@.len(),
            forall|j: int| 0 <= j < i ==> #[trigger] strings_view(v@)[j] != s@,
        decreases v@.len() - i,
    {
        if str_eq(v[i].as_str(), s.as_str()) {
            assert(strings_view(v@)[i as int] == s@);
            return true;
        }
        i = i + 1;
    }
    false
}

impl EirS13PrimeEngine {
    pub fn new(eir_realm: &str) -> (r: Self)
        ensures
            r.eir_realm@ == eir_realm@,
            r.equipment_db.wf(),
            r.equipment_db@ == Map::<Seq<char>, EquipmentStatus>::empty(),
            r.banned_software_versions@.len() == 0,
            r.total_checks == 0,
            r.blacklisted_hits == 0,
    {
        EirS13PrimeEngine {
            eir_realm: eir_realm.to_owned(),
            equipment_db: StrTable::new(),
            banned_software_versions: Vec::new(),
            total_checks: 0,
            blacklisted_hits: 0,
        }
    }

    /// Records `status` for `imei`.
    pub fn register_equipment(&mut self, imei: &str, status: EquipmentStatus)
        requires
            old(self).equipment_db.wf(),
        ensures
            final(self).equipment_db.wf(),
            final(self).equipment_db@ == old(self).equipment_db@.insert(imei@, status),
            final(self).banned_software_versions@ == old(self).banned_software_versions@,
            final(self).total_checks == old(self).total_checks,
            final(self).blacklisted_hits == old(self).blacklisted_hits,
    {
        self.equipment_db.insert(imei.to_owned(), status);
    }

    /// Adds `svn` to the banned software versions.
    pub fn ban_software_version(&mut self, svn: &str)
        ensures
            strings_view(final(self).banned_software_versions@) == strings_view(old(self).banned_software_versions@).push(svn@),
            final(self).equipment_db == old(self).equipment_db,
            final(self).total_checks == old(self).total_checks,
            final(self).blacklisted_hits == old(self).blacklisted_hits,
    {
        let ghost b0 = self.banned_software_versions@;
        self.banned_software_versions.push(svn.to_owned());
        assert(strings_view(self.banned_software_versions@) =~= strings_view(b0).push(svn@));
    }

    /// Answers an ECR: without Terminal-Information, whitelisted with 5004; otherwise 2001 with
    /// `terminal_status`; a blacklisted answer that did not come from a banned version counts
    /// as a blacklist hit.
    pub fn process_ecr(&mut self, ecr: &S13PrimeMessage) -> (r: S13PrimeMessage)
        requires
            old(self).equipment_db.wf(),
            old(self).total_checks < u64::MAX,
            old(self).blacklisted_hits < u64::MAX,
        ensures
            final(self).total_checks == old(self).total_checks + 1,
            final(self).equipment_db == old(self).equipment_db,
            final(self).banned_software_versions == old(self).banned_software_versions,
            match first_terminal(ecr.avps@) {
                None => {
                    &&& is_eca(r, *ecr, EquipmentStatus::Whitelisted, 5004)
                    &&& final(self).blacklisted_hits == old(self).blacklisted_hits
                },
                Some(t) => {
                    let st = terminal_status(old(self).equipment_db@, strings_view(old(self).banned_software_versions@), t);
                    &&& is_eca(r, *ecr, st, 2001)
                    &&& final(self).blacklisted_hits == old(self).blacklisted_hits + if st == EquipmentStatus::Blacklisted { 1int } else { 0int }
                },
            },
    {
        self.total_checks = self.total_checks + 1;
        match find_terminal(&ecr.avps) {
            None => S13PrimeMessage::new_eca(ecr, EquipmentStatus::Whitelisted, 5004),
            Some(info) => {
                match &info.software_version {
                    Some(sv) => {
                        if contains_string(&self.banned_software_versions, sv) {
                            return S13PrimeMessage::new_eca(ecr, EquipmentStatus::Greylisted, 2001);
                        }
                    },
                    None => {},
                }
                let status = match self.equipment_db.get(info.imei.as_str()) {
                    Some(s) => *s,
                    None => EquipmentStatus::Whitelisted,
                };
                if status == EquipmentStatus::Blacklisted {
                    self.blacklisted_hits = self.blacklisted_hits + 1;
                }
                S13PrimeMessage::new_eca(ecr, status, 2001)
            },
        }
    }
}

} // verus!
