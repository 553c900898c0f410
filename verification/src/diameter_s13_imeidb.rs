//! S13 query of a GSMA-style IMEI database: device records keyed by IMEI, and answers that
//! block stolen, cloned or regulator-blocked equipment.
use vstd::prelude::*;
use vstd::string::*;
use vstd::utf8::{encode_utf8, is_char_boundary};
use crate::diameter::DIAMETER_SUCCESS;
use crate::text::{str_eq, concat};

verus! {

pub const DIAMETER_APPLICATION_S13: u32 = 16777252;
pub const DIAMETER_CMD_IMEI_DB_QUERY: u32 = 327;
pub const DIAMETER_ERROR_EQUIPMENT_BLOCKED: u32 = 5005;
pub const DIAMETER_ERROR_UNKNOWN_TAC: u32 = 5006;

#[derive(Debug, Clone, Copy, PartialEq, Eq, Structural)]
pub enum GsmaDeviceStatus {
    Clean,
    Stolen,
    ClonedFraud,
    RegulatoryBlocked,
}

impl GsmaDeviceStatus {
    /// Only clean devices are allowed.
    pub fn is_allowed(&self) -> (r: bool)
        ensures
            r == (*self == GsmaDeviceStatus::Clean),
    {
        match self {
            GsmaDeviceStatus::Clean => true,
            _ => false,
        }
    }
}

#[derive(Debug, Clone, PartialEq, Eq)]
pub struct GsmaDeviceRecord {
    pub imei: String,
    pub tac: String,
    pub model_name: String,
    pub manufacturer: String,
    pub status: GsmaDeviceStatus,
    pub reporting_carrier_plmn: String,
}

#[derive(Debug, Clone, PartialEq, Eq)]
pub struct S13ImeiDbMessage {
    pub is_request: bool,
    pub session_id: String,
    pub origin_host: String,
    pub origin_realm: String,
    pub destination_realm: String,
    pub imei: String,
    pub tac: String,
    pub status: Option<GsmaDeviceStatus>,
    pub model_info: Option<String>,
    pub result_code: u32,
}

/// Whether the first eight octets of `imei` end on a character boundary (or it is shorter).
pub open spec fn tac_splits(imei: Seq<char>) -> bool {
    encode_utf8(imei).len() >= 8 ==> is_char_boundary(encode_utf8(imei), 8)
}

/// Whether `tac` is the type allocation code of `imei`: its first eight octets, or all of it
/// when shorter.
pub open spec fn is_tac_of(tac: Seq<char>, imei: Seq<char>) -> bool {
    if encode_utf8(imei).len() >= 8 {
        encode_utf8(tac) == encode_utf8(imei).subrange(0, 8)
    } else {
        tac == imei
    }
}

fn tac_of(imei: &str) -> (r: String)
    requires
        tac_splits(imei@),
    ensures
        is_tac_of(r@, imei@),
{
    if imei.as_bytes().len() >= 8 {
        let (head, _tail) = imei.split_at(8);
        let r = head.to_owned();
        assert(head.spec_bytes() == encode_utf8(head@));
        assert(imei.spec_bytes() == encode_utf8(imei@));
        assert(encode_utf8(r@) =~= encode_utf8(imei@).subrange(0, 8));
        r
    } else {
        imei.to_owned()
    }
}

impl S13ImeiDbMessage {
    /// A database query for `imei`.
    pub fn new_request(session_id: &str, origin_host: &str, origin_realm: &str, destination_realm: &str, imei: &str) -> (r: Self)
        requires
            tac_splits(imei@),
        ensures
            r.is_request,
            r.session_id@ == session_id@,
            r.origin_host@ == origin_host@,
            r.origin_realm@ == origin_realm@,
            r.destination_realm@ == destination_realm@,
            r.imei@ == imei@,
            is_tac_of(r.tac@, imei@),
            r.status is None,
            r.model_info is None,
            r.result_code == 0,
    {
        let tac = tac_of(imei);
        Self {
            is_request: true,
            session_id: session_id.to_owned(),
            origin_host: origin_host.to_owned(),
            origin_realm: origin_realm.to_owned(),
            destination_realm: destination_realm.to_owned(),
            imei: imei.to_owned(),
            tac,
            status: None,
            model_info: None,
            result_code: 0,
        }
    }

    /// The answer for `imei`.
    pub fn new_answer(
        session_id: &str,
        origin_host: &str,
        origin_realm: &str,
        imei: &str,
        status: GsmaDeviceStatus,
        model_info: Option<&str>,
        result_code: u32,
    ) -> (r: Self)
        requires
            tac_splits(imei@),
        ensures
            !r.is_request,
            r.session_id@ == session_id@,
            r.origin_host@ == origin_host@,
            r.origin_realm@ == origin_realm@,
            r.destination_realm@.len() == 0,
            r.imei@ == imei@,
            is_tac_of(r.tac@, imei@),
            r.status == Some(status),
            match model_info {
                Some(m) => r.model_info matches Some(s) && s@ == m@,
                None => r.model_info is None,
            },
            r.result_code == result_code,
    {
        let tac = tac_of(imei);
        Self {
            is_request: false,
            session_id: session_id.to_owned(),
            origin_host: origin_host.to_owned(),
            origin_realm: origin_realm.to_owned(),
            destination_realm: String::new(),
            imei: imei.to_owned(),
            tac,
            status: Some(status),
            model_info: match model_info {
                Some(s) => Some(s.to_owned()),
                None => None,
            },
            result_code,
        }
    }
}

/// A record as (IMEI, TAC, model, manufacturer, status, PLMN).
pub open spec fn record_view(r: GsmaDeviceRecord) -> (Seq<char>, Seq<char>, Seq<char>, Seq<char>, GsmaDeviceStatus, Seq<char>) {
    (r.imei@, r.tac@, r.model_name@, r.manufacturer@, r.status, r.reporting_carrier_plmn@)
}

pub open spec fn records_view(v: Seq<GsmaDeviceRecord>) -> Seq<(Seq<char>, Seq<char>, Seq<char>, Seq<char>, GsmaDeviceStatus, Seq<char>)> {
    v.map_values(|r: GsmaDeviceRecord| record_view(r))
}

/// The position of the first record for `imei`.
pub open spec fn first_record(v: Seq<GsmaDeviceRecord>, imei: Seq<char>) -> Option<int>
    decreases v.len(),
{
    if v.len() == 0 {
        None
    } else if v[0].imei@ == imei {
        Some(0)
    } else {
        match first_record(v.skip(1), imei) {
            Some(i) => Some(i + 1),
            None => None,
        }
    }
}

proof fn lemma_first_record(v: Seq<GsmaDeviceRecord>, imei: Seq<char>)
    ensures
        match first_record(v, imei) {
            Some(i) => 0 <= i < v.len() && v[i].imei@ == imei && forall|j: int| 0 <= j < i ==> v[j].imei@ != imei,
            None => forall|j: int| 0 <= j < v.len() ==> v[j].imei@ != imei,
        },
    decreases v.len(),
{
    if v.len() > 0 {
        lemma_first_record(v.skip(1), imei);
        assert forall|j: int| 1 <= j < v.len() implies v[j] == v.skip(1)[j - 1] by {}
    }
}

pub struct S13ImeiDbEngine {
    pub server_host: String,
    pub server_realm: String,
    pub records: Vec<GsmaDeviceRecord>,
    pub total_queries: u64,
    pub total_clean_responses: u64,
    pub total_blocked_responses: u64,
}

impl S13ImeiDbEngine {
    pub fn new(server_host: &str, server_realm: &str) -> (r: Self)
        ensures
            r.server_host@ == server_host@,
            r.server_realm@ == server_realm@,
            r.records@.len() == 0,
            r.total_queries == 0,
            r.total_clean_responses == 0,
            r.total_blocked_responses == 0,
    {
        Self {
            server_host: server_host.to_owned(),
            server_realm: server_realm.to_owned(),
            records: Vec::new(),
            total_queries: 0,
            total_clean_responses: 0,
            total_blocked_responses: 0,
        }
    }

    fn find(&self, imei: &str) -> (r: Option<usize>)
        ensures
            match r {
                Some(i) => first_record(self.records@, imei@) == Some(i as int) && i < self.records@.len(),
                None => first_record(self.records@, imei@) is None,
            },
    {
        proof {
            lemma_first_record(self.records@, imei@);
        }
        let mut i: usize = 0;
        while i < self.records.len()
            invariant
                i <= self.records@.len(),
                forall|j: int| 0 <= j < i ==> #[trigger] self.records@[j].imei@ != imei@,
                match first_record(self.records@, imei@) {
                    Some(k) => 0 <= k < self.records@.len() && self.records@[k].imei@ == imei@
                        && forall|j: int| 0 <= j < k ==> self.records@[j].imei@ != imei@,
                    None => forall|j: int| 0 <= j < self.records@.len() ==> self.records@[j].imei@ != imei@,
                },
            decreases self.records@.len() - i,
        {
            if str_eq(self.records[i].imei.as_str(), imei) {
                proof {
                    let k = first_record(self.records@, imei@);
                    if k is None {
                    } else if k.unwrap() > i {
                    }
                }
                return Some(i);
            }
            i = i + 1;
        }
        None
    }

    /// Updates the first record for `imei` (model, manufacturer, status, PLMN), or appends a
    /// new record with its TAC.
    pub fn register_device(&mut self, imei: &str, model_name: &str, manufacturer: &str, status: GsmaDeviceStatus, plmn: &str)
        requires
            tac_splits(imei@),
        ensures
            final(self).total_queries == old(self).total_queries,
            final(self).total_clean_responses == old(self).total_clean_responses,
            final(self).total_blocked_responses == old(self).total_blocked_responses,
            match first_record(old(self).records@, imei@) {
                Some(i) => records_view(final(self).records@) == records_view(old(self).records@).update(
                    i,
                    (imei@, old(self).records@[i].tac@, model_name@, manufacturer@, status, plmn@),
                ),
                None => {
                    &&& final(self).records@.len() == old(self).records@.len() + 1
                    &&& records_view(final(self).records@).drop_last() == records_view(old(self).records@)
                    &&& {
                        let n = final(self).records@.last();
                        &&& n.imei@ == imei@
                        &&& is_tac_of(n.tac@, imei@)
                        &&& n.model_name@ == model_name@
                        &&& n.manufacturer@ == manufacturer@
                        &&& n.status == status
                        &&& n.reporting_carrier_plmn@ == plmn@
                    }
                },
            },
    {
        let ghost r0 = records_view(self.records@);
        proof {
            lemma_first_record(self.records@, imei@);
        }
        match self.find(imei) {
            Some(i) => {
                let old_rec = &self.records[i];
                let rec = GsmaDeviceRecord {
                    imei: old_rec.imei.clone(),
                    tac: old_rec.tac.clone(),
                    model_name: model_name.to_owned(),
                    manufacturer: manufacturer.to_owned(),
                    status,
                    reporting_carrier_plmn: plmn.to_owned(),
                };
                self.records.set(i, rec);
                assert(records_view(self.records@) =~= r0.update(
                    i as int,
                    (imei@, old(self).records@[i as int].tac@, model_name@, manufacturer@, status, plmn@),
                ));
            },
            None => {
                let tac = tac_of(imei);
                self.records.push(GsmaDeviceRecord {
                    imei: imei.to_owned(),
                    tac,
                    model_name: model_name.to_owned(),
                    manufacturer: manufacturer.to_owned(),
                    status,
                    reporting_carrier_plmn: plmn.to_owned(),
                });
                assert(records_view(self.records@).drop_last() =~= r0);
            },
        }
    }

    /// Answers a query: for a registered IMEI, its status and "manufacturer model", with 2001
    /// when clean (counted as clean) and 5005 otherwise (counted as blocked); for an unknown
    /// IMEI, clean, "Generic 5G UE" and 2001.
    pub fn process_idr(&mut self, req: &S13ImeiDbMessage) -> (r: S13ImeiDbMessage)
        requires
            tac_splits(req.imei@),
            old(self).total_queries < u64::MAX,
            old(self).total_clean_responses < u64::MAX,
            old(self).total_blocked_responses < u64::MAX,
        ensures
            final(self).records == old(self).records,
            final(self).total_queries == old(self).total_queries + 1,
            !r.is_request,
            r.session_id@ == req.session_id@,
            r.origin_host@ == old(self).server_host@,
            r.origin_realm@ == old(self).server_realm@,
            r.imei@ == req.imei@,
            is_tac_of(r.tac@, req.imei@),
            match first_record(old(self).records@, req.imei@) {
                Some(i) => {
                    let rec = old(self).records@[i];
                    let clean = rec.status == GsmaDeviceStatus::Clean;
                    &&& r.status == Some(rec.status)
                    &&& r.model_info matches Some(m) && m@ == rec.manufacturer@ + " "@ + rec.model_name@
                    &&& r.result_code == if clean { DIAMETER_SUCCESS } else { DIAMETER_ERROR_EQUIPMENT_BLOCKED }
                    &&& final(self).total_clean_responses == old(self).total_clean_responses + if clean { 1int } else { 0int }
                    &&& final(self).total_blocked_responses == old(self).total_blocked_responses + if clean { 0int } else { 1int }
                },
                None => {
                    &&& r.status == Some(GsmaDeviceStatus::Clean)
                    &&& r.model_info matches Some(m) && m@ == "Generic 5G UE"@
                    &&& r.result_code == DIAMETER_SUCCESS
                    &&& final(self).total_clean_responses == old(self).total_clean_responses + 1
                    &&& final(self).total_blocked_responses == old(self).total_blocked_responses
                },
            },
    {
        self.total_queries = self.total_queries + 1;
        match self.find(req.imei.as_str()) {
            Some(i) => {
                let record = &self.records[i];
                let status = record.status;
                let result_code = if status.is_allowed() {
                    self.total_clean_responses = self.total_clean_responses + 1;
                    DIAMETER_SUCCESS
                } else {
                    self.total_blocked_responses = self.total_blocked_responses + 1;
                    DIAMETER_ERROR_EQUIPMENT_BLOCKED
                };
                let record = &self.records[i];
                let head = concat(record.manufacturer.as_str(), " ");
                let model_desc = concat(head.as_str(), record.model_name.as_str());
                S13ImeiDbMessage::new_answer(
                    req.session_id.as_str(),
                    self.server_host.as_str(),
                    self.server_realm.as_str(),
                    req.imei.as_str(),
                    status,
                    Some(model_desc.as_str()),
                    result_code,
                )
            },
            None => {
                self.total_clean_responses = self.total_clean_responses + 1;
                S13ImeiDbMessage::new_answer(
                    req.session_id.as_str(),
                    self.server_host.as_str(),
                    self.server_realm.as_str(),
                    req.imei.as_str(),
                    GsmaDeviceStatus::Clean,
                    Some("Generic 5G UE"),
                    DIAMETER_SUCCESS,
                )
            },
        }
    }
}

} // verus!
