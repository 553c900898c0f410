//! Diameter overload control (DOIC) for the EIR: overload reports ask clients to shed a share
//! of their requests, emergencies bypass the throttle.
use vstd::prelude::*;

verus! {

pub const DIAMETER_SUCCESS: u32 = 2001;
pub const DIAMETER_UNABLE_TO_DELIVER: u32 = 3002;
pub const DIAMETER_TOO_BUSY: u32 = 3004;
pub const DIAMETER_APPLICATION_S13: u32 = 16777252;

#[derive(Debug, Clone, Copy, PartialEq, Eq, Structural)]
pub enum OcReportType {
    Host,
    Realm,
}

#[derive(Debug, Clone, Copy, PartialEq, Eq, Structural)]
pub struct OcOverloadReport {
    pub sequence_number: u64,
    pub report_type: OcReportType,
    pub reduction_percentage: u8,
    pub validity_duration_secs: u64,
    pub issued_at_secs: u64,
}

/// Whether the report has run out at `now`.
pub open spec fn expired(r: OcOverloadReport, now: u64) -> bool {
    now >= r.issued_at_secs + r.validity_duration_secs
}

/// Whether the end of the report's validity fits in 64 bits.
pub open spec fn report_fits(r: OcOverloadReport) -> bool {
    r.issued_at_secs + r.validity_duration_secs <= u64::MAX
}

impl OcOverloadReport {
    pub fn is_expired(&self, current_time_secs: u64) -> (r: bool)
        requires
            report_fits(*self),
        ensures
            r == expired(*self, current_time_secs),
    {
        current_time_secs >= self.issued_at_secs + self.validity_duration_secs
    }
}

#[derive(Debug, Clone, PartialEq, Eq, Structural)]
pub enum OcThrottleVerdict {
    AdmitRequest,
    ThrottleDrop { reduction_percentage: u8, result_code: u32 },
    EmergencyBypass,
}

/// Whether the `n`-th request under a reduction of `pct` percent is dropped: when the count of
/// drops owed, n·pct/100 rounded down, grows at `n`.
/// The request count after one more request, wrapping to zero past the largest value.
pub open spec fn next_count(c: u64) -> u64 {
    if c == u64::MAX {
        0
    } else {
        (c + 1) as u64
    }
}

pub open spec fn drops_at(n: int, pct: int) -> bool {
    (n * pct) / 100 > ((if n >= 1 { n - 1 } else { 0 }) * pct) / 100
}

pub struct S13OverloadControlEngine {
    pub server_host: String,
    pub current_olr: Option<OcOverloadReport>,
    pub request_counter: u64,
    pub total_admitted: u64,
    pub total_throttled: u64,
    pub total_bypassed: u64,
}

impl S13OverloadControlEngine {
    pub fn new(server_host: &str) -> (r: Self)
        ensures
            r.server_host@ == server_host@,
            r.current_olr is None,
            r.request_counter == 0,
            r.total_admitted == 0,
            r.total_throttled == 0,
            r.total_bypassed == 0,
    {
        Self {
            server_host: server_host.to_owned(),
            current_olr: None,
            request_counter: 0,
            total_admitted: 0,
            total_throttled: 0,
            total_bypassed: 0,
        }
    }

    /// Takes a new overload report, its reduction capped at 100%. A report that is not newer
    /// than a still valid current one is ignored; a reduction of zero ends the overload.
    pub fn update_overload_report(
        &mut self,
        sequence_number: u64,
        report_type: OcReportType,
        reduction_percentage: u8,
        validity_duration_secs: u64,
        current_time_secs: u64,
    )
        requires
            old(self).current_olr matches Some(o) ==> report_fits(o),
        ensures
            final(self).request_counter == old(self).request_counter,
            final(self).total_admitted == old(self).total_admitted,
            final(self).total_throttled == old(self).total_throttled,
            final(self).total_bypassed == old(self).total_bypassed,
            final(self).current_olr == if old(self).current_olr matches Some(o) && sequence_number <= o.sequence_number && !expired(o, current_time_secs) {
                old(self).current_olr
            } else {
                let reduction: u8 = if reduction_percentage < 100 { reduction_percentage } else { 100 };
                if reduction == 0 {
                    None
                } else {
                    Some(OcOverloadReport {
                        sequence_number,
                        report_type,
                        reduction_percentage: reduction,
                        validity_duration_secs,
                        issued_at_secs: current_time_secs,
                    })
                }
            },
    {
        let reduction: u8 = if reduction_percentage < 100 { reduction_percentage } else { 100 };
        match &self.current_olr {
            Some(existing) => {
                if sequence_number <= existing.sequence_number && !existing.is_expired(current_time_secs) {
                    return;
                }
            },
            None => {},
        }
        if reduction == 0 {
            self.current_olr = None;
        } else {
            self.current_olr = Some(OcOverloadReport {
                sequence_number,
                report_type,
                reduction_percentage: reduction,
                validity_duration_secs,
                issued_at_secs: current_time_secs,
            });
        }
    }

    /// Decides one request. Emergencies bypass. An expired report is dropped first. Under a
    /// report the request count advances and the request is dropped (3004) when `drops_at`
    /// says so; otherwise it is admitted.
    pub fn evaluate_request(&mut self, is_emergency: bool, current_time_secs: u64) -> (r: OcThrottleVerdict)
        requires
            old(self).current_olr matches Some(o) ==> report_fits(o),
            !is_emergency && (old(self).current_olr matches Some(o) && !expired(o, current_time_secs)) ==> next_count(
                old(self).request_counter,
            ) * old(self).current_olr.unwrap().reduction_percentage <= u64::MAX,
            old(self).total_admitted < u64::MAX,
            old(self).total_throttled < u64::MAX,
            old(self).total_bypassed < u64::MAX,
        ensures
            final(self).server_host == old(self).server_host,
            if is_emergency {
                &&& r == OcThrottleVerdict::EmergencyBypass
                &&& final(self).total_bypassed == old(self).total_bypassed + 1
                &&& final(self).current_olr == old(self).current_olr
                &&& final(self).request_counter == old(self).request_counter
                &&& final(self).total_admitted == old(self).total_admitted
                &&& final(self).total_throttled == old(self).total_throttled
            } else {
                let active = match old(self).current_olr {
                    Some(o) => !expired(o, current_time_secs),
                    None => false,
                };
                &&& final(self).total_bypassed == old(self).total_bypassed
                &&& final(self).current_olr == if active { old(self).current_olr } else { None }
                &&& if active {
                    let o = old(self).current_olr.unwrap();
                    let n = next_count(old(self).request_counter);
                    &&& final(self).request_counter == n
                    &&& if drops_at(n as int, o.reduction_percentage as int) {
                        &&& r == OcThrottleVerdict::ThrottleDrop { reduction_percentage: o.reduction_percentage, result_code: DIAMETER_TOO_BUSY }
                        &&& final(self).total_throttled == old(self).total_throttled + 1
                        &&& final(self).total_admitted == old(self).total_admitted
                    } else {
                        &&& r == OcThrottleVerdict::AdmitRequest
                        &&& final(self).total_admitted == old(self).total_admitted + 1
                        &&& final(self).total_throttled == old(self).total_throttled
                    }
                } else {
                    &&& r == OcThrottleVerdict::AdmitRequest
                    &&& final(self).request_counter == old(self).request_counter
                    &&& final(self).total_admitted == old(self).total_admitted + 1
                    &&& final(self).total_throttled == old(self).total_throttled
                }
            },
    {
        if is_emergency {
            self.total_bypassed = self.total_bypassed + 1;
            return OcThrottleVerdict::EmergencyBypass;
        }
        let expired_now = match &self.current_olr {
            Some(olr) => olr.is_expired(current_time_secs),
            None => false,
        };
        if expired_now {
            self.current_olr = None;
        }
        match self.current_olr {
            Some(olr) => {
                let reduction = olr.reduction_percentage;
                self.request_counter = self.request_counter.wrapping_add(1);
                let n = self.request_counter;
                let prev = n.saturating_sub(1);
                assert(prev * reduction <= n * reduction) by (nonlinear_arith)
                    requires prev <= n;
                let should_throttle = (n * reduction as u64) / 100 > (prev * reduction as u64) / 100;
                if should_throttle {
                    self.total_throttled = self.total_throttled + 1;
                    OcThrottleVerdict::ThrottleDrop { reduction_percentage: reduction, result_code: DIAMETER_TOO_BUSY }
                } else {
                    self.total_admitted = self.total_admitted + 1;
                    OcThrottleVerdict::AdmitRequest
                }
            },
            None => {
                self.total_admitted = self.total_admitted + 1;
                OcThrottleVerdict::AdmitRequest
            },
        }
    }
}

} // verus!
