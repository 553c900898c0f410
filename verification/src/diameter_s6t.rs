//! S6t (SCEF to HSS): monitoring event configuration for IoT devices.
use vstd::prelude::*;
use crate::table::{StrTable, map_get};

verus! {

pub const DIAMETER_APPLICATION_S6T: u32 = 16777345;
pub const DIAMETER_CMD_CONFIGURATION_INFORMATION: u32 = 8388728;
pub const DIAMETER_CMD_REPORTING_INFORMATION: u32 = 8388729;

#[derive(Debug, Clone, Copy, PartialEq, Eq, Structural)]
pub enum MonitoringEventType {
    LossOfConnectivity,
    UeReachability,
    LocationReporting,
    RoamingStatus,
}

#[derive(Debug, Clone, PartialEq, Eq)]
pub struct MonitoringEventConfig {
    pub scef_id: String,
    pub scef_ref_id: u32,
    pub event_type: MonitoringEventType,
}

/// A configuration as (SCEF, reference, event type).
pub open spec fn config_view(c: MonitoringEventConfig) -> (Seq<char>, u32, MonitoringEventType) {
    (c.scef_id@, c.scef_ref_id, c.event_type)
}

pub open spec fn configs_view(v: Seq<MonitoringEventConfig>) -> Seq<(Seq<char>, u32, MonitoringEventType)> {
    v.map_values(|c: MonitoringEventConfig| config_view(c))
}

fn copy_config(c: &MonitoringEventConfig) -> (r: MonitoringEventConfig)
    ensures
        config_view(r) == config_view(*c),
{
    MonitoringEventConfig { scef_id: c.scef_id.clone(), scef_ref_id: c.scef_ref_id, event_type: c.event_type }
}

#[derive(Debug, Clone, PartialEq, Eq)]
pub enum S6tAvp {
    UserName(String),
    MonitoringConfig(MonitoringEventConfig),
    ResultCode(u32),
}

#[derive(Debug, Clone, PartialEq, Eq)]
pub struct S6tMessage {
    pub command_code: u32,
    pub is_request: bool,
    pub application_id: u32,
    pub session_id: String,
    pub avps: Vec<S6tAvp>,
}

/// The first User-Name, or the empty text.
pub open spec fn user_or_empty(avps: Seq<S6tAvp>) -> Seq<char>
    decreases avps.len(),
{
    if avps.len() == 0 {
        Seq::empty()
    } else if let S6tAvp::UserName(s) = avps[0] {
        s@
    } else {
        user_or_empty(avps.skip(1))
    }
}

/// The first monitoring configuration.
pub open spec fn first_config(avps: Seq<S6tAvp>) -> Option<MonitoringEventConfig>
    decreases avps.len(),
{
    if avps.len() == 0 {
        None
    } else if let S6tAvp::MonitoringConfig(c) = avps[0] {
        Some(c)
    } else {
        first_config(avps.skip(1))
    }
}

fn find_user(avps: &Vec<S6tAvp>) -> (r: String)
    ensures
        r@ == user_or_empty(avps@),
{
    let mut i: usize = 0;
    assert(avps@.skip(0) =~= avps@);
    while i < avps.len()
        invariant
            i <= avps@.len(),
            user_or_empty(avps@) == user_or_empty(avps@.skip(i as int)),
        decreases avps@.len() - i,
    {
        assert(avps@.skip(i as int)[0] == avps@[i as int]);
        assert(avps@.skip(i as int).skip(1) =~= avps@.skip(i + 1));
        if let S6tAvp::UserName(s) = &avps[i] {
            return s.clone();
        }
        i = i + 1;
    }
    String::new()
}

fn find_config(avps: &Vec<S6tAvp>) -> (r: Option<&MonitoringEventConfig>)
    ensures
        match r {
            Some(c) => first_config(avps@) == Some(*c),
            None => first_config(avps@) is None,
        },
{
    let mut i: usize = 0;
    assert(avps@.skip(0) =~= avps@);
    while i < avps.len()
        invariant
            i <= avps@.len(),
            first_config(avps@) == first_config(avps@.skip(i as int)),
        decreases avps@.len() - i,
    {
        assert(avps@.skip(i as int)[0] == avps@[i as int]);
        assert(avps@.skip(i as int).skip(1) =~= avps@.skip(i + 1));
        if let S6tAvp::MonitoringConfig(c) = &avps[i] {
            return Some(c);
        }
        i = i + 1;
    }
    None
}

impl S6tMessage {
    /// A Configuration-Information-Request for `imsi` with one monitoring configuration.
    pub fn new_cir(session_id: &str, imsi: &str, config: MonitoringEventConfig) -> (r: Self)
        ensures
            r.command_code == DIAMETER_CMD_CONFIGURATION_INFORMATION,
            r.is_request,
            r.application_id == DIAMETER_APPLICATION_S6T,
            r.session_id@ == session_id@,
            r.avps@.len() == 2,
            r.avps@[0] matches S6tAvp::UserName(u) && u@ == imsi@,
            r.avps@[1] == S6tAvp::MonitoringConfig(config),
    {
        S6tMessage {
            command_code: DIAMETER_CMD_CONFIGURATION_INFORMATION,
            is_request: true,
            application_id: DIAMETER_APPLICATION_S6T,
            session_id: session_id.to_owned(),
            avps: vec![S6tAvp::UserName(imsi.to_owned()), S6tAvp::MonitoringConfig(config)],
        }
    }

    /// The answer to `req` with one Result-Code.
    pub fn new_cia(req: &S6tMessage, result_code: u32) -> (r: Self)
        ensures
            r.command_code == req.command_code,
            !r.is_request,
            r.application_id == req.application_id,
            r.session_id@ == req.session_id@,
            r.avps@ == seq![S6tAvp::ResultCode(result_code)],
    {
        S6tMessage {
            command_code: req.command_code,
            is_request: false,
            application_id: req.application_id,
            session_id: req.session_id.clone(),
            avps: vec![S6tAvp::ResultCode(result_code)],
        }
    }
}

#[derive(Debug, Clone)]
pub struct ScefS6tHssEngine {
    pub hss_realm: String,
    pub user_monitoring_events: StrTable<Vec<MonitoringEventConfig>>,
    pub total_cir_requests: u64,
    pub total_rir_reports: u64,
}

impl ScefS6tHssEngine {
    pub fn new(hss_realm: &str) -> (r: Self)
        ensures
            r.hss_realm@ == hss_realm@,
            r.user_monitoring_events.wf(),
            r.user_monitoring_events@ == Map::<Seq<char>, Vec<MonitoringEventConfig>>::empty(),
            r.total_cir_requests == 0,
            r.total_rir_reports == 0,
    {
        ScefS6tHssEngine {
            hss_realm: hss_realm.to_owned(),
            user_monitoring_events: StrTable::new(),
            total_cir_requests: 0,
            total_rir_reports: 0,
        }
    }

    /// Appends the request's first monitoring configuration to the list of the first
    /// User-Name (empty when none) and answers 2001; without a configuration, answers 5004.
    pub fn handle_cir(&mut self, cir: &S6tMessage) -> (r: S6tMessage)
        requires
            old(self).user_monitoring_events.wf(),
            old(self).total_cir_requests < u64::MAX,
        ensures
            final(self).user_monitoring_events.wf(),
            final(self).total_cir_requests == old(self).total_cir_requests + 1,
            final(self).total_rir_reports == old(self).total_rir_reports,
            r.command_code == cir.command_code,
            !r.is_request,
            r.application_id == cir.application_id,
            r.session_id@ == cir.session_id@,
            match first_config(cir.avps@) {
                None => {
                    &&& r.avps@ == seq![S6tAvp::ResultCode(5004)]
                    &&& final(self).user_monitoring_events@ == old(self).user_monitoring_events@
                },
                Some(cfg) => {
                    let user = user_or_empty(cir.avps@);
                    let before = match map_get(old(self).user_monitoring_events@, user) {
                        Some(v) => configs_view(v@),
                        None => Seq::empty(),
                    };
                    &&& r.avps@ == seq![S6tAvp::ResultCode(2001)]
                    &&& final(self).user_monitoring_events@.dom() == old(self).user_monitoring_events@.dom().insert(user)
                    &&& configs_view(final(self).user_monitoring_events@[user]@) == before.push(config_view(cfg))
                    &&& forall|k: Seq<char>| k != user ==> #[trigger] final(self).user_monitoring_events@[k] == old(self).user_monitoring_events@[k]
                },
            },
    {
        self.total_cir_requests = self.total_cir_requests + 1;
        let user = find_user(&cir.avps);
        match find_config(&cir.avps) {
            None => S6tMessage::new_cia(cir, 5004),
            Some(cfg) => {
                let c = copy_config(cfg);
                let mut list = match self.user_monitoring_events.remove(user.as_str()) {
                    Some(v) => v,
                    None => Vec::new(),
                };
                let ghost l0 = list@;
                list.push(c);
                assert(configs_view(list@) =~= configs_view(l0).push(config_view(c)));
                self.user_monitoring_events.insert(user, list);
                S6tMessage::new_cia(cir, 2001)
            },
        }
    }
}

} // verus!
