//! 5G converged charging function (CHF): session-based charging with quota reservation
//! against prepaid balances, rating by rating group, used-quota reconciliation,
//! final-unit indications when credit runs out, and charging data records at release.
use vstd::prelude::*;
use std::collections::HashMap;
use crate::net::Snssai;
use crate::table::StrTable;
use crate::text::{owned, concat, decimal, dec_chars};

verus! {

broadcast use vstd::std_specs::hash::group_hash_axioms;

#[derive(Debug, Clone, Copy, PartialEq, Eq, Structural)]
pub enum ReportingReason {
    ThresholdReached,
    ValidityTimeExpired,
    FinalUnit,
    RatingConditionChange,
    SessionTermination,
}

#[derive(Debug, Clone, PartialEq, Eq)]
pub enum FinalUnitAction {
    Terminate,
    Redirect { redirect_server_url: String },
    RestrictAccess { max_bitrate_kbps: u32 },
}

#[derive(Debug, Clone, PartialEq, Eq)]
pub struct FinalUnitIndication {
    pub action: FinalUnitAction,
}

#[derive(Debug, Clone, Copy, PartialEq, Eq, Structural)]
pub struct GrantedQuotaUnit {
    pub total_volume_bytes: u64,
    pub uplink_volume_bytes: u64,
    pub downlink_volume_bytes: u64,
    pub validity_time_s: u32,
    pub quota_threshold_volume_bytes: Option<u64>,
}

#[derive(Debug, Clone, Copy, PartialEq, Eq, Structural)]
pub struct UsedQuotaUnit {
    pub rating_group: u32,
    pub total_volume_bytes: u64,
    pub uplink_volume_bytes: u64,
    pub downlink_volume_bytes: u64,
    pub reporting_reason: ReportingReason,
}

#[derive(Debug, Clone, Copy, PartialEq, Eq, Structural)]
pub enum ChargingSessionState {
    Active,
    FinalUnitReached,
    Terminated,
}

#[derive(Debug, Clone, Copy, PartialEq, Eq, Structural)]
pub enum CdrClosingCause {
    NormalRelease,
    AbnormalRelease,
    VolumeLimit,
    TimeLimit,
    ManagementIntervention,
}

#[derive(Debug, Clone, PartialEq, Eq)]
pub struct PduSessionChargingRecord {
    pub cdr_id: String,
    pub supi: String,
    pub pdu_session_id: u8,
    pub charging_id: u32,
    pub s_nssai: Snssai,
    pub rating_group: u32,
    pub start_time_epoch_s: u64,
    pub stop_time_epoch_s: u64,
    pub duration_s: u32,
    pub total_volume_bytes: u64,
    pub uplink_volume_bytes: u64,
    pub downlink_volume_bytes: u64,
    pub total_amount_debited_cents: u64,
    pub cause_for_closing: CdrClosingCause,
}

/// The price of a rating group, in cents per megabyte (10^6 octets).
#[derive(Debug, Clone, Copy, PartialEq, Eq, Structural)]
pub struct RatingPlan {
    pub rating_group: u32,
    pub cents_per_megabyte: u64,
}

#[derive(Debug, Clone, PartialEq, Eq)]
pub struct SubscriberAccount {
    pub supi: String,
    pub balance_cents: u64,
    pub reserved_cents: u64,
}

/// `a - b`, or zero.
pub open spec fn sat_sub(a: u64, b: u64) -> u64 {
    if a > b { (a - b) as u64 } else { 0 }
}

impl SubscriberAccount {
    pub fn new(supi: &str, initial_balance_cents: u64) -> (r: Self)
        ensures
            r.supi@ == supi@,
            r.balance_cents == initial_balance_cents,
            r.reserved_cents == 0,
    {
        SubscriberAccount { supi: owned(supi), balance_cents: initial_balance_cents, reserved_cents: 0 }
    }

    /// The balance not reserved.
    pub fn available_balance(&self) -> (r: u64)
        ensures
            r == sat_sub(self.balance_cents, self.reserved_cents),
    {
        if self.balance_cents > self.reserved_cents {
            self.balance_cents - self.reserved_cents
        } else {
            0
        }
    }
}

pub type ChfSubscriberAccount = SubscriberAccount;

#[derive(Debug, Clone, PartialEq, Eq)]
pub struct InitialChargingRequest {
    pub supi: String,
    pub pdu_session_id: u8,
    pub s_nssai: Snssai,
    pub rating_group: u32,
    pub requested_volume_bytes: u64,
    pub timestamp_epoch_s: u64,
}

#[derive(Debug, Clone, PartialEq, Eq)]
pub struct InitialChargingResponse {
    pub charging_session_id: String,
    pub granted_quota: Option<GrantedQuotaUnit>,
    pub final_unit_indication: Option<FinalUnitIndication>,
}

#[derive(Debug, Clone, PartialEq, Eq)]
pub struct UpdateChargingRequest {
    pub charging_session_id: String,
    pub used_quota: UsedQuotaUnit,
    pub requested_volume_bytes: Option<u64>,
    pub timestamp_epoch_s: u64,
}

#[derive(Debug, Clone, PartialEq, Eq)]
pub struct UpdateChargingResponse {
    pub granted_quota: Option<GrantedQuotaUnit>,
    pub final_unit_indication: Option<FinalUnitIndication>,
    pub remaining_balance_cents: u64,
}

#[derive(Debug, Clone, PartialEq, Eq)]
pub struct TerminationChargingRequest {
    pub charging_session_id: String,
    pub final_used_quota: UsedQuotaUnit,
    pub timestamp_epoch_s: u64,
    pub closing_cause: CdrClosingCause,
}

#[derive(Debug, Clone, PartialEq, Eq)]
pub struct TerminationChargingResponse {
    pub generated_cdr_id: String,
    pub final_balance_cents: u64,
}

#[derive(Debug, Clone, PartialEq, Eq)]
pub struct ChfSessionContext {
    pub session_id: String,
    pub supi: String,
    pub pdu_session_id: u8,
    pub s_nssai: Snssai,
    pub rating_group: u32,
    pub state: ChargingSessionState,
    pub start_time_epoch_s: u64,
    pub last_update_epoch_s: u64,
    pub currently_reserved_cents: u64,
    pub total_used_volume_bytes: u64,
    pub total_uplink_bytes: u64,
    pub total_downlink_bytes: u64,
    pub total_debited_cents: u64,
    pub charging_id: u32,
}

/// Megabytes charged for `bytes`: rounded up.
pub open spec fn mb_up(bytes: u64) -> int {
    (bytes + 999_999) / 1_000_000
}

/// Octets granted for a reservation of `cost` cents at `cpm` cents per megabyte: whole
/// megabytes, one at least.
pub open spec fn grant_bytes(cost: int, cpm: int) -> int {
    let g = (cost / cpm) * 1_000_000;
    if g > 1_000_000 { g } else { 1_000_000 }
}

/// The quota for `granted` octets: a quarter uplink, three quarters downlink, valid an
/// hour, with a threshold at 80%.
pub open spec fn quota_for(granted: int) -> GrantedQuotaUnit {
    GrantedQuotaUnit {
        total_volume_bytes: granted as u64,
        uplink_volume_bytes: (granted / 4) as u64,
        downlink_volume_bytes: (granted * 3 / 4) as u64,
        validity_time_s: 3600,
        quota_threshold_volume_bytes: Some((granted * 8 / 10) as u64),
    }
}

/// The smaller of two numbers.
pub open spec fn min_int(a: int, b: int) -> int {
    if a < b { a } else { b }
}

/// Cents to charge for `bytes` at `cpm` cents per megabyte.
fn charge_cents(bytes: u64, cpm: u64) -> (r: u64)
    requires
        bytes + 999_999 <= u64::MAX,
        mb_up(bytes) * cpm <= u64::MAX,
    ensures
        r == mb_up(bytes) * cpm,
{
    let mb = (bytes + 999_999) / 1_000_000;
    mb * cpm
}

/// The quota a reservation of `cost` cents buys at `cpm` cents per megabyte.
fn quota_of(cost: u64, cpm: u64) -> (r: GrantedQuotaUnit)
    requires
        cpm > 0,
        grant_bytes(cost as int, cpm as int) * 8 <= u64::MAX,
    ensures
        r == quota_for(grant_bytes(cost as int, cpm as int)),
{
    assert(cost / cpm <= cost) by (nonlinear_arith)
        requires cpm > 0;
    let q = cost / cpm;
    assert(q * 1_000_000 <= grant_bytes(cost as int, cpm as int));
    let g = q * 1_000_000;
    let granted: u64 = if g > 1_000_000 { g } else { 1_000_000 };
    GrantedQuotaUnit {
        total_volume_bytes: granted,
        uplink_volume_bytes: granted / 4,
        downlink_volume_bytes: (granted * 3) / 4,
        validity_time_s: 3600,
        quota_threshold_volume_bytes: Some((granted * 8) / 10),
    }
}

/// Whether the charge for `bytes` at `cpm` can be computed without overflow.
pub open spec fn charge_fits(bytes: u64, cpm: u64) -> bool {
    bytes + 999_999 <= u64::MAX && mb_up(bytes) * cpm <= u64::MAX
}

/// Whether the quota bought with up to `avail` cents of the charge for `bytes` can be
/// computed: a non-zero price and no overflow.
pub open spec fn grant_fits(bytes: u64, cpm: u64, avail: u64) -> bool {
    cpm > 0 && grant_bytes(min_int(mb_up(bytes) * cpm, avail as int), cpm as int) * 8 <= u64::MAX
}

pub struct ChfEngine {
    pub chf_instance_id: String,
    pub next_session_counter: u32,
    pub next_cdr_counter: u32,
    pub accounts: StrTable<SubscriberAccount>,
    pub rating_plans: HashMap<u32, RatingPlan>,
    pub active_sessions: StrTable<ChfSessionContext>,
    pub generated_cdrs: Vec<PduSessionChargingRecord>,
}

/// The tables are well formed.
pub open spec fn chf_wf(e: ChfEngine) -> bool {
    e.accounts.wf() && e.active_sessions.wf()
}

/// The id of the `n`th charging session.
pub open spec fn session_id_of(n: u32) -> Seq<char> {
    "urn:chf:session:"@ + dec_chars(n as nat)
}

/// The id of the `n`th charging data record.
pub open spec fn cdr_id_of(n: u32) -> Seq<char> {
    "cdr-5gc-"@ + dec_chars(n as nat)
}

/// The URL subscribers out of credit are sent to.
pub open spec fn topup_url() -> Seq<char> {
    "https://selfcare.carrier.com/topup"@
}

/// Whether `f` redirects the subscriber to the top-up page.
pub open spec fn redirects_to_topup(f: Option<FinalUnitIndication>) -> bool {
    match f {
        Some(x) => match x.action {
            FinalUnitAction::Redirect { redirect_server_url } => redirect_server_url@ == topup_url(),
            _ => false,
        },
        None => false,
    }
}

/// The bitrate, in kbit/s, access is restricted to when credit runs out.
pub const RESTRICTED_BITRATE_KBPS: u32 = 64;

/// Requested volume assumed for an update that names none.
pub const DEFAULT_UPDATE_VOLUME_BYTES: u64 = 10_000_000;

impl ChfEngine {
    /// An engine with rating plans 100 (5 cents/MB), 200 (10) and 300 (15), session
    /// counter 1001 and record counter 5001.
    pub fn new(chf_instance_id: &str) -> (r: Self)
        ensures
            chf_wf(r),
            r.chf_instance_id@ == chf_instance_id@,
            r.next_session_counter == 1001,
            r.next_cdr_counter == 5001,
            r.accounts@ == Map::<Seq<char>, SubscriberAccount>::empty(),
            r.active_sessions@ == Map::<Seq<char>, ChfSessionContext>::empty(),
            r.generated_cdrs@.len() == 0,
            r.rating_plans@ == map![
                100u32 => RatingPlan { rating_group: 100, cents_per_megabyte: 5 },
                200u32 => RatingPlan { rating_group: 200, cents_per_megabyte: 10 },
                300u32 => RatingPlan { rating_group: 300, cents_per_megabyte: 15 },
            ],
    {
        let mut rating_plans: HashMap<u32, RatingPlan> = HashMap::new();
        rating_plans.insert(100, RatingPlan { rating_group: 100, cents_per_megabyte: 5 });
        rating_plans.insert(200, RatingPlan { rating_group: 200, cents_per_megabyte: 10 });
        rating_plans.insert(300, RatingPlan { rating_group: 300, cents_per_megabyte: 15 });
        assert(rating_plans@ =~= map![
            100u32 => RatingPlan { rating_group: 100, cents_per_megabyte: 5 },
            200u32 => RatingPlan { rating_group: 200, cents_per_megabyte: 10 },
            300u32 => RatingPlan { rating_group: 300, cents_per_megabyte: 15 },
        ]);
        ChfEngine {
            chf_instance_id: owned(chf_instance_id),
            next_session_counter: 1001,
            next_cdr_counter: 5001,
            accounts: StrTable::new(),
            rating_plans,
            active_sessions: StrTable::new(),
            generated_cdrs: Vec::new(),
        }
    }

    /// Opens (or replaces) the account of `supi` with the given balance and nothing reserved.
    pub fn provision_account(&mut self, supi: &str, initial_balance_cents: u64)
        requires
            chf_wf(*old(self)),
        ensures
            chf_wf(*final(self)),
            final(self).accounts@.dom() == old(self).accounts@.dom().insert(supi@),
            final(self).accounts@[supi@].supi@ == supi@,
            final(self).accounts@[supi@].balance_cents == initial_balance_cents,
            final(self).accounts@[supi@].reserved_cents == 0,
            forall|k: Seq<char>| k != supi@ && #[trigger] old(self).accounts@.dom().contains(k)
                ==> final(self).accounts@[k] == old(self).accounts@[k],
            final(self).active_sessions == old(self).active_sessions,
            final(self).rating_plans@ == old(self).rating_plans@,
            final(self).generated_cdrs == old(self).generated_cdrs,
            final(self).next_session_counter == old(self).next_session_counter,
            final(self).next_cdr_counter == old(self).next_cdr_counter,
    {
        self.accounts.insert(owned(supi), SubscriberAccount::new(supi, initial_balance_cents));
        assert(self.accounts@.dom() =~= old(self).accounts@.dom().insert(supi@));
    }

    /// Sets (or replaces) the price of a rating group.
    pub fn set_rating_plan(&mut self, rating_group: u32, cents_per_megabyte: u64)
        ensures
            final(self).rating_plans@ == old(self).rating_plans@.insert(
                rating_group,
                RatingPlan { rating_group, cents_per_megabyte },
            ),
            final(self).accounts == old(self).accounts,
            final(self).active_sessions == old(self).active_sessions,
            final(self).generated_cdrs == old(self).generated_cdrs,
            final(self).next_session_counter == old(self).next_session_counter,
            final(self).next_cdr_counter == old(self).next_cdr_counter,
    {
        self.rating_plans.insert(rating_group, RatingPlan { rating_group, cents_per_megabyte });
    }
}

impl ChfEngine {
    /// Opens a charging session: the next session id and charging id, and, while the
    /// account has unreserved balance, a reservation of the requested volume's price (up
    /// to that balance) with the quota it buys. An account with none gets a redirect to
    /// the top-up page and no session. Unknown rating group or account: an error, and
    /// nothing changes.
    pub fn handle_initial_request(&mut self, req: &InitialChargingRequest) -> (r: Result<InitialChargingResponse, &'static str>)
        requires
            chf_wf(*old(self)),
            old(self).rating_plans@.contains_key(req.rating_group) && old(self).accounts@.dom().contains(req.supi@) ==> {
                let plan = old(self).rating_plans@[req.rating_group];
                let acct = old(self).accounts@[req.supi@];
                let avail = sat_sub(acct.balance_cents, acct.reserved_cents);
                &&& old(self).next_session_counter < u32::MAX
                &&& charge_fits(req.requested_volume_bytes, plan.cents_per_megabyte)
                &&& avail > 0 ==> grant_fits(req.requested_volume_bytes, plan.cents_per_megabyte, avail)
            },
        ensures
            chf_wf(*final(self)),
            final(self).rating_plans@ == old(self).rating_plans@,
            final(self).generated_cdrs == old(self).generated_cdrs,
            final(self).next_cdr_counter == old(self).next_cdr_counter,
            final(self).chf_instance_id == old(self).chf_instance_id,
            if !old(self).rating_plans@.contains_key(req.rating_group) {
                &&& r matches Err(e) && e@ == "Rating group not found"@
                &&& *final(self) == *old(self)
            } else if !old(self).accounts@.dom().contains(req.supi@) {
                &&& r matches Err(e) && e@ == "Subscriber account not found"@
                &&& *final(self) == *old(self)
            } else {
                let n = old(self).next_session_counter;
                let plan = old(self).rating_plans@[req.rating_group];
                let acct = old(self).accounts@[req.supi@];
                let avail = sat_sub(acct.balance_cents, acct.reserved_cents);
                let cost = min_int(mb_up(req.requested_volume_bytes) * plan.cents_per_megabyte, avail as int);
                &&& final(self).next_session_counter == n + 1
                &&& r matches Ok(resp) && resp.charging_session_id@ == session_id_of(n)
                &&& if avail == 0 {
                    &&& r matches Ok(resp) && resp.granted_quota is None
                        && redirects_to_topup(resp.final_unit_indication)
                    &&& final(self).accounts == old(self).accounts
                    &&& final(self).active_sessions == old(self).active_sessions
                } else {
                    &&& r matches Ok(resp) && resp.granted_quota == Some(quota_for(grant_bytes(cost, plan.cents_per_megabyte as int)))
                        && resp.final_unit_indication is None
                    &&& final(self).accounts@ == old(self).accounts@.insert(
                        req.supi@,
                        SubscriberAccount { reserved_cents: (acct.reserved_cents + cost) as u64, ..acct },
                    )
                    &&& final(self).active_sessions@.dom() == old(self).active_sessions@.dom().insert(session_id_of(n))
                    &&& forall|k: Seq<char>| k != session_id_of(n) && #[trigger] old(self).active_sessions@.dom().contains(k)
                        ==> final(self).active_sessions@[k] == old(self).active_sessions@[k]
                    &&& ({
                        let c = final(self).active_sessions@[session_id_of(n)];
                        &&& c.session_id@ == session_id_of(n)
                        &&& c.supi@ == req.supi@
                        &&& c.pdu_session_id == req.pdu_session_id
                        &&& c.s_nssai == req.s_nssai
                        &&& c.rating_group == req.rating_group
                        &&& c.state == ChargingSessionState::Active
                        &&& c.start_time_epoch_s == req.timestamp_epoch_s
                        &&& c.last_update_epoch_s == req.timestamp_epoch_s
                        &&& c.currently_reserved_cents == cost
                        &&& c.total_used_volume_bytes == 0 && c.total_uplink_bytes == 0
                        &&& c.total_downlink_bytes == 0 && c.total_debited_cents == 0
                        &&& c.charging_id == n
                    })
                }
            },
    {
        proof {
            reveal_strlit("Rating group not found");
            reveal_strlit("Subscriber account not found");
            reveal_strlit("https://selfcare.carrier.com/topup");
            reveal_strlit("urn:chf:session:");
        }
        let cpm = match self.rating_plans.get(&req.rating_group) {
            Some(p) => p.cents_per_megabyte,
            None => return Err("Rating group not found"),
        };
        let available = match self.accounts.get(req.supi.as_str()) {
            Some(a) => a.available_balance(),
            None => return Err("Subscriber account not found"),
        };
        let n = self.next_session_counter;
        let session_id = concat("urn:chf:session:", decimal(n as u64).as_str());
        let charging_id = n;
        self.next_session_counter = n + 1;
        let required = charge_cents(req.requested_volume_bytes, cpm);
        if available == 0 {
            return Ok(InitialChargingResponse {
                charging_session_id: session_id,
                granted_quota: None,
                final_unit_indication: Some(FinalUnitIndication {
                    action: FinalUnitAction::Redirect { redirect_server_url: owned("https://selfcare.carrier.com/topup") },
                }),
            });
        }
        let mut acct = match self.accounts.remove(req.supi.as_str()) {
            Some(a) => a,
            None => return Err("Subscriber account not found"),
        };
        let ghost acct0 = acct;
        let cost = if required < available { required } else { available };
        acct.reserved_cents = acct.reserved_cents + cost;
        let gqu = quota_of(cost, cpm);
        self.accounts.insert(req.supi.clone(), acct);
        assert(self.accounts@ =~= old(self).accounts@.insert(
            req.supi@,
            SubscriberAccount { reserved_cents: (acct0.reserved_cents + cost) as u64, ..acct0 },
        ));
        let ctx = ChfSessionContext {
            session_id: session_id.clone(),
            supi: req.supi.clone(),
            pdu_session_id: req.pdu_session_id,
            s_nssai: req.s_nssai,
            rating_group: req.rating_group,
            state: ChargingSessionState::Active,
            start_time_epoch_s: req.timestamp_epoch_s,
            last_update_epoch_s: req.timestamp_epoch_s,
            currently_reserved_cents: cost,
            total_used_volume_bytes: 0,
            total_uplink_bytes: 0,
            total_downlink_bytes: 0,
            total_debited_cents: 0,
            charging_id,
        };
        self.active_sessions.insert(session_id.clone(), ctx);
        assert(self.active_sessions@.dom() =~= old(self).active_sessions@.dom().insert(session_id_of(n)));
        Ok(InitialChargingResponse { charging_session_id: session_id, granted_quota: Some(gqu), final_unit_indication: None })
    }
}

/// Whether `f` restricts access to the out-of-credit bitrate.
pub open spec fn restricts_access(f: Option<FinalUnitIndication>) -> bool {
    match f {
        Some(x) => match x.action {
            FinalUnitAction::RestrictAccess { max_bitrate_kbps } => max_bitrate_kbps == RESTRICTED_BITRATE_KBPS,
            _ => false,
        },
        None => false,
    }
}

/// The volume an update asks for: the requested volume, or the default.
pub open spec fn update_volume(req: UpdateChargingRequest) -> u64 {
    match req.requested_volume_bytes {
        Some(v) => v,
        None => DEFAULT_UPDATE_VOLUME_BYTES,
    }
}

/// A session with the reported usage and its price added to its totals.
pub open spec fn with_usage(c: ChfSessionContext, u: UsedQuotaUnit, debit: int) -> ChfSessionContext {
    ChfSessionContext {
        total_used_volume_bytes: (c.total_used_volume_bytes + u.total_volume_bytes) as u64,
        total_uplink_bytes: (c.total_uplink_bytes + u.uplink_volume_bytes) as u64,
        total_downlink_bytes: (c.total_downlink_bytes + u.downlink_volume_bytes) as u64,
        total_debited_cents: (c.total_debited_cents + debit) as u64,
        ..c
    }
}

/// Whether the usage can be added to the session's totals without overflow.
pub open spec fn usage_fits(c: ChfSessionContext, u: UsedQuotaUnit, debit: int) -> bool {
    &&& c.total_used_volume_bytes + u.total_volume_bytes <= u64::MAX
    &&& c.total_uplink_bytes + u.uplink_volume_bytes <= u64::MAX
    &&& c.total_downlink_bytes + u.downlink_volume_bytes <= u64::MAX
    &&& c.total_debited_cents + debit <= u64::MAX
}

fn add_usage(c: &mut ChfSessionContext, u: &UsedQuotaUnit, debit: u64)
    requires
        usage_fits(*old(c), *u, debit as int),
    ensures
        *final(c) == with_usage(*old(c), *u, debit as int),
{
    c.total_used_volume_bytes = c.total_used_volume_bytes + u.total_volume_bytes;
    c.total_uplink_bytes = c.total_uplink_bytes + u.uplink_volume_bytes;
    c.total_downlink_bytes = c.total_downlink_bytes + u.downlink_volume_bytes;
    c.total_debited_cents = c.total_debited_cents + debit;
}

impl ChfEngine {
    /// Updates a session: the reported usage is priced and debited from the balance,
    /// the session's reservation released and its totals raised; then, while balance is
    /// left unreserved, the requested volume (10 MB by default) is reserved as at the
    /// start; otherwise the session reaches its final unit and access is restricted.
    /// Unknown session, rating group or account: an error, and nothing changes.
    pub fn handle_update_request(&mut self, req: &UpdateChargingRequest) -> (r: Result<UpdateChargingResponse, &'static str>)
        requires
            chf_wf(*old(self)),
            ({
                let sid = req.charging_session_id@;
                let c = old(self).active_sessions@[sid];
                let plan = old(self).rating_plans@[c.rating_group];
                let acct = old(self).accounts@[c.supi@];
                let u = req.used_quota;
                let debit = mb_up(u.total_volume_bytes) * plan.cents_per_megabyte;
                let bal = sat_sub(acct.balance_cents, debit as u64);
                let res = sat_sub(acct.reserved_cents, c.currently_reserved_cents);
                let avail = sat_sub(bal, res);
                old(self).active_sessions@.dom().contains(sid) && old(self).rating_plans@.contains_key(c.rating_group)
                    && old(self).accounts@.dom().contains(c.supi@) ==> {
                    &&& charge_fits(u.total_volume_bytes, plan.cents_per_megabyte)
                    &&& usage_fits(c, u, debit)
                    &&& avail > 0 ==> charge_fits(update_volume(*req), plan.cents_per_megabyte)
                        && grant_fits(update_volume(*req), plan.cents_per_megabyte, avail)
                }
            }),
        ensures
            chf_wf(*final(self)),
            final(self).rating_plans@ == old(self).rating_plans@,
            final(self).generated_cdrs == old(self).generated_cdrs,
            final(self).next_cdr_counter == old(self).next_cdr_counter,
            final(self).next_session_counter == old(self).next_session_counter,
            final(self).chf_instance_id == old(self).chf_instance_id,
            ({
                let sid = req.charging_session_id@;
                let c = old(self).active_sessions@[sid];
                let plan = old(self).rating_plans@[c.rating_group];
                let acct = old(self).accounts@[c.supi@];
                let u = req.used_quota;
                let cpm = plan.cents_per_megabyte;
                let debit = mb_up(u.total_volume_bytes) * cpm;
                let bal = sat_sub(acct.balance_cents, debit as u64);
                let res = sat_sub(acct.reserved_cents, c.currently_reserved_cents);
                let avail = sat_sub(bal, res);
                let cost = min_int(mb_up(update_volume(*req)) * cpm, avail as int);
                let c1 = ChfSessionContext { last_update_epoch_s: req.timestamp_epoch_s, ..with_usage(c, u, debit) };
                if !old(self).active_sessions@.dom().contains(sid) {
                    &&& r matches Err(e) && e@ == "Charging session not found"@
                    &&& *final(self) == *old(self)
                } else if !old(self).rating_plans@.contains_key(c.rating_group) {
                    &&& r matches Err(e) && e@ == "Rating group not found"@
                    &&& *final(self) == *old(self)
                } else if !old(self).accounts@.dom().contains(c.supi@) {
                    &&& r matches Err(e) && e@ == "Subscriber account not found"@
                    &&& *final(self) == *old(self)
                } else if avail == 0 {
                    &&& r matches Ok(resp) && resp.granted_quota is None && restricts_access(resp.final_unit_indication)
                        && resp.remaining_balance_cents == bal
                    &&& final(self).accounts@ == old(self).accounts@.insert(
                        c.supi@,
                        SubscriberAccount { balance_cents: bal, reserved_cents: res, ..acct },
                    )
                    &&& final(self).active_sessions@ == old(self).active_sessions@.insert(
                        sid,
                        ChfSessionContext { state: ChargingSessionState::FinalUnitReached, currently_reserved_cents: 0, ..c1 },
                    )
                } else {
                    &&& r matches Ok(resp) && resp.granted_quota == Some(quota_for(grant_bytes(cost, cpm as int)))
                        && resp.final_unit_indication is None && resp.remaining_balance_cents == bal
                    &&& final(self).accounts@ == old(self).accounts@.insert(
                        c.supi@,
                        SubscriberAccount { balance_cents: bal, reserved_cents: (res + cost) as u64, ..acct },
                    )
                    &&& final(self).active_sessions@ == old(self).active_sessions@.insert(
                        sid,
                        ChfSessionContext { currently_reserved_cents: cost as u64, ..c1 },
                    )
                }
            }),
    {
        proof {
            reveal_strlit("Charging session not found");
            reveal_strlit("Rating group not found");
            reveal_strlit("Subscriber account not found");
        }
        let (rg, supi_known) = match self.active_sessions.get(req.charging_session_id.as_str()) {
            Some(c) => (c.rating_group, self.accounts.contains_key(c.supi.as_str())),
            None => return Err("Charging session not found"),
        };
        let cpm = match self.rating_plans.get(&rg) {
            Some(p) => p.cents_per_megabyte,
            None => return Err("Rating group not found"),
        };
        if !supi_known {
            return Err("Subscriber account not found");
        }
        let mut ctx = match self.active_sessions.remove(req.charging_session_id.as_str()) {
            Some(c) => c,
            None => return Err("Charging session not found"),
        };
        let ghost c0 = ctx;
        let mut acct = match self.accounts.remove(ctx.supi.as_str()) {
            Some(a) => a,
            None => return Err("Subscriber account not found"),
        };
        let ghost a0 = acct;
        let u = req.used_quota;
        let debit = charge_cents(u.total_volume_bytes, cpm);
        acct.reserved_cents = if acct.reserved_cents > ctx.currently_reserved_cents {
            acct.reserved_cents - ctx.currently_reserved_cents
        } else {
            0
        };
        acct.balance_cents = if acct.balance_cents > debit { acct.balance_cents - debit } else { 0 };
        add_usage(&mut ctx, &u, debit);
        ctx.last_update_epoch_s = req.timestamp_epoch_s;
        let available = acct.available_balance();
        let supi_key = ctx.supi.clone();
        if available == 0 {
            ctx.state = ChargingSessionState::FinalUnitReached;
            ctx.currently_reserved_cents = 0;
            let remaining = acct.balance_cents;
            self.accounts.insert(supi_key, acct);
            self.active_sessions.insert(req.charging_session_id.clone(), ctx);
            return Ok(UpdateChargingResponse {
                granted_quota: None,
                final_unit_indication: Some(FinalUnitIndication {
                    action: FinalUnitAction::RestrictAccess { max_bitrate_kbps: RESTRICTED_BITRATE_KBPS },
                }),
                remaining_balance_cents: remaining,
            });
        }
        let req_bytes = match req.requested_volume_bytes {
            Some(v) => v,
            None => DEFAULT_UPDATE_VOLUME_BYTES,
        };
        let required = charge_cents(req_bytes, cpm);
        let cost = if required < available { required } else { available };
        acct.reserved_cents = acct.reserved_cents + cost;
        ctx.currently_reserved_cents = cost;
        let gqu = quota_of(cost, cpm);
        let remaining = acct.balance_cents;
        self.accounts.insert(supi_key, acct);
        self.active_sessions.insert(req.charging_session_id.clone(), ctx);
        Ok(UpdateChargingResponse { granted_quota: Some(gqu), final_unit_indication: None, remaining_balance_cents: remaining })
    }

    /// Releases a session: it leaves the active sessions (whatever follows), its final
    /// usage is priced and debited and its reservation released, and a charging data
    /// record with the next record id is kept. Unknown session, rating group or account:
    /// an error.
    pub fn handle_termination_request(&mut self, req: &TerminationChargingRequest) -> (r: Result<TerminationChargingResponse, &'static str>)
        requires
            chf_wf(*old(self)),
            ({
                let sid = req.charging_session_id@;
                let c = old(self).active_sessions@[sid];
                let plan = old(self).rating_plans@[c.rating_group];
                let u = req.final_used_quota;
                let cost = mb_up(u.total_volume_bytes) * plan.cents_per_megabyte;
                old(self).active_sessions@.dom().contains(sid) && old(self).rating_plans@.contains_key(c.rating_group)
                    && old(self).accounts@.dom().contains(c.supi@) ==> {
                    &&& charge_fits(u.total_volume_bytes, plan.cents_per_megabyte)
                    &&& usage_fits(c, u, cost)
                    &&& old(self).next_cdr_counter < u32::MAX
                }
            }),
        ensures
            chf_wf(*final(self)),
            final(self).rating_plans@ == old(self).rating_plans@,
            final(self).next_session_counter == old(self).next_session_counter,
            final(self).chf_instance_id == old(self).chf_instance_id,
            ({
                let sid = req.charging_session_id@;
                let c = old(self).active_sessions@[sid];
                let plan = old(self).rating_plans@[c.rating_group];
                let acct = old(self).accounts@[c.supi@];
                let u = req.final_used_quota;
                let cost = mb_up(u.total_volume_bytes) * plan.cents_per_megabyte;
                let c1 = with_usage(c, u, cost);
                let n = old(self).next_cdr_counter;
                if !old(self).active_sessions@.dom().contains(sid) {
                    &&& r matches Err(e) && e@ == "Charging session not found"@
                    &&& *final(self) == *old(self)
                } else {
                    &&& final(self).active_sessions@ == old(self).active_sessions@.remove(sid)
                    &&& if !old(self).rating_plans@.contains_key(c.rating_group) {
                        &&& r matches Err(e) && e@ == "Rating group not found"@
                        &&& final(self).accounts == old(self).accounts
                        &&& final(self).generated_cdrs == old(self).generated_cdrs
                        &&& final(self).next_cdr_counter == n
                    } else if !old(self).accounts@.dom().contains(c.supi@) {
                        &&& r matches Err(e) && e@ == "Subscriber account not found"@
                        &&& final(self).accounts == old(self).accounts
                        &&& final(self).generated_cdrs == old(self).generated_cdrs
                        &&& final(self).next_cdr_counter == n
                    } else {
                        let bal = sat_sub(acct.balance_cents, cost as u64);
                        &&& r matches Ok(resp) && resp.generated_cdr_id@ == cdr_id_of(n) && resp.final_balance_cents == bal
                        &&& final(self).accounts@ == old(self).accounts@.insert(
                            c.supi@,
                            SubscriberAccount {
                                balance_cents: bal,
                                reserved_cents: sat_sub(acct.reserved_cents, c.currently_reserved_cents),
                                ..acct
                            },
                        )
                        &&& final(self).next_cdr_counter == n + 1
                        &&& final(self).generated_cdrs@.len() == old(self).generated_cdrs@.len() + 1
                        &&& final(self).generated_cdrs@.drop_last() == old(self).generated_cdrs@
                        &&& ({
                            let d = final(self).generated_cdrs@.last();
                            &&& d.cdr_id@ == cdr_id_of(n)
                            &&& d.supi@ == c.supi@
                            &&& d.pdu_session_id == c.pdu_session_id
                            &&& d.charging_id == c.charging_id
                            &&& d.s_nssai == c.s_nssai
                            &&& d.rating_group == c.rating_group
                            &&& d.start_time_epoch_s == c.start_time_epoch_s
                            &&& d.stop_time_epoch_s == req.timestamp_epoch_s
                            &&& d.duration_s == sat_sub(req.timestamp_epoch_s, c.start_time_epoch_s) as u32
                            &&& d.total_volume_bytes == c1.total_used_volume_bytes
                            &&& d.uplink_volume_bytes == c1.total_uplink_bytes
                            &&& d.downlink_volume_bytes == c1.total_downlink_bytes
                            &&& d.total_amount_debited_cents == c1.total_debited_cents
                            &&& d.cause_for_closing == req.closing_cause
                        })
                    }
                }
            }),
    {
        proof {
            reveal_strlit("Charging session not found");
            reveal_strlit("Rating group not found");
            reveal_strlit("Subscriber account not found");
            reveal_strlit("cdr-5gc-");
        }
        if !self.active_sessions.contains_key(req.charging_session_id.as_str()) {
            return Err("Charging session not found");
        }
        let mut ctx = match self.active_sessions.remove(req.charging_session_id.as_str()) {
            Some(c) => c,
            None => return Err("Charging session not found"),
        };
        let cpm = match self.rating_plans.get(&ctx.rating_group) {
            Some(p) => p.cents_per_megabyte,
            None => return Err("Rating group not found"),
        };
        if !self.accounts.contains_key(ctx.supi.as_str()) {
            return Err("Subscriber account not found");
        }
        let mut acct = match self.accounts.remove(ctx.supi.as_str()) {
            Some(a) => a,
            None => return Err("Subscriber account not found"),
        };
        let u = req.final_used_quota;
        let final_cost = charge_cents(u.total_volume_bytes, cpm);
        acct.reserved_cents = if acct.reserved_cents > ctx.currently_reserved_cents {
            acct.reserved_cents - ctx.currently_reserved_cents
        } else {
            0
        };
        acct.balance_cents = if acct.balance_cents > final_cost { acct.balance_cents - final_cost } else { 0 };
        add_usage(&mut ctx, &u, final_cost);
        ctx.state = ChargingSessionState::Terminated;
        let n = self.next_cdr_counter;
        let cdr_id = concat("cdr-5gc-", decimal(n as u64).as_str());
        self.next_cdr_counter = n + 1;
        let elapsed: u64 = if req.timestamp_epoch_s > ctx.start_time_epoch_s {
            req.timestamp_epoch_s - ctx.start_time_epoch_s
        } else {
            0
        };
        let cdr = PduSessionChargingRecord {
            cdr_id: cdr_id.clone(),
            supi: ctx.supi.clone(),
            pdu_session_id: ctx.pdu_session_id,
            charging_id: ctx.charging_id,
            s_nssai: ctx.s_nssai,
            rating_group: ctx.rating_group,
            start_time_epoch_s: ctx.start_time_epoch_s,
            stop_time_epoch_s: req.timestamp_epoch_s,
            duration_s: elapsed as u32,
            total_volume_bytes: ctx.total_used_volume_bytes,
            uplink_volume_bytes: ctx.total_uplink_bytes,
            downlink_volume_bytes: ctx.total_downlink_bytes,
            total_amount_debited_cents: ctx.total_debited_cents,
            cause_for_closing: req.closing_cause,
        };
        let ghost before = self.generated_cdrs@;
        self.generated_cdrs.push(cdr);
        assert(self.generated_cdrs@.drop_last() =~= before);
        let final_balance = acct.balance_cents;
        self.accounts.insert(ctx.supi.clone(), acct);
        Ok(TerminationChargingResponse { generated_cdr_id: cdr_id, final_balance_cents: final_balance })
    }
}

/// A grant never reserves beyond the balance: the reservation after a grant of what is
/// required (up to the unreserved balance) is at most the larger of the old reservation
/// and the balance.
pub proof fn lemma_grant_within_balance(balance: u64, reserved: u64, required: int)
    requires
        required >= 0,
    ensures
        reserved + min_int(required, sat_sub(balance, reserved) as int) <= if reserved > balance {
            reserved as int
        } else {
            balance as int
        },
{
}

} // verus!
