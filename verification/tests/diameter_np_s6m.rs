use lib::diameter_np::{
    NpAvp, NpMessage, RanCongestionInfo, RanCongestionLevel, RcafNpEngine, DIAMETER_APPLICATION_NP,
    DIAMETER_CMD_NON_AGGREGATED_RUCI_REPORT,
};
use lib::diameter_s6m::{
    S6mAvp, S6mHssEngine, S6mMessage, SmsMiResult, DIAMETER_APPLICATION_S6M,
    DIAMETER_CMD_SUBSCRIBER_INFORMATION,
};

#[test]
fn test_diameter_np_ruci_congestion_reporting() {
    let mut pcrf = RcafNpEngine::new("pcrf.operator.com");

    let congestion = RanCongestionInfo { enodeb_id: 1001, cell_id: 1, level: RanCongestionLevel::High };
    let ncr = NpMessage::new_ncr("np-sess-100", "460012345678901", congestion);
    assert_eq!(ncr.application_id, DIAMETER_APPLICATION_NP);
    assert_eq!(ncr.command_code, DIAMETER_CMD_NON_AGGREGATED_RUCI_REPORT);

    let nca = pcrf.handle_ncr(&ncr);
    assert!(!nca.is_request);
    let rc = nca.avps.iter().find_map(|a| if let NpAvp::ResultCode(c) = a { Some(*c) } else { None });
    assert_eq!(rc, Some(2001));

    assert_eq!(pcrf.get_cell_congestion(1001, 1), RanCongestionLevel::High);
    assert_eq!(pcrf.get_cell_congestion(1001, 2), RanCongestionLevel::NotCongested);
    assert_eq!(pcrf.total_ncr_reports, 1);
}

#[test]
fn np_later_reports_overwrite() {
    let mut pcrf = RcafNpEngine::new("p");
    let mut ncr = NpMessage::new_ncr("s", "1", RanCongestionInfo { enodeb_id: 7, cell_id: 3, level: RanCongestionLevel::Low });
    ncr.avps.push(NpAvp::RanCongestion(RanCongestionInfo { enodeb_id: 7, cell_id: 3, level: RanCongestionLevel::Medium }));
    pcrf.handle_ncr(&ncr);
    assert_eq!(pcrf.get_cell_congestion(7, 3), RanCongestionLevel::Medium);
    assert_eq!(pcrf.get_cell_congestion(3, 7), RanCongestionLevel::NotCongested);
    assert_eq!(pcrf.cell_congestion_map.len(), 1);
}

#[test]
fn test_diameter_s6m_subscriber_info_query() {
    let mut hss = S6mHssEngine::new("hss.gw.operator.com");
    hss.register_subscriber("460012345678000", SmsMiResult::Authorized);

    let sir = S6mMessage::new_sir("s6m-sess-1", "460012345678000");
    assert_eq!(sir.application_id, DIAMETER_APPLICATION_S6M);
    assert_eq!(sir.command_code, DIAMETER_CMD_SUBSCRIBER_INFORMATION);

    let sia = hss.handle_sir(&sir);
    assert!(!sia.is_request);
    let rc = sia.avps.iter().find_map(|a| if let S6mAvp::ResultCode(c) = a { Some(*c) } else { None });
    assert_eq!(rc, Some(2001));

    let res = sia.avps.iter().find_map(|a| if let S6mAvp::SmsMiResult(r) = a { Some(*r) } else { None });
    assert_eq!(res, Some(SmsMiResult::Authorized));
    assert_eq!(hss.total_sir_requests, 1);
}

#[test]
fn s6m_unknown_is_not_registered() {
    let mut hss = S6mHssEngine::new("h");
    let sia = hss.handle_sir(&S6mMessage::new_sir("s", "x"));
    assert_eq!(sia.avps, vec![S6mAvp::ResultCode(5001), S6mAvp::SmsMiResult(SmsMiResult::NotRegistered)]);
}
