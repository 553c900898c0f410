use lib::diameter_s13_ocp::{OcOverloadReport, OcReportType, OcThrottleVerdict, S13OverloadControlEngine, DIAMETER_TOO_BUSY};

#[test]
fn test_diameter_s13_ocp_lifecycle() {
    let mut engine = S13OverloadControlEngine::new("eir01.epc.mnc001.mcc208.3gppnetwork.org");

    assert_eq!(engine.evaluate_request(false, 1000), OcThrottleVerdict::AdmitRequest);

    engine.update_overload_report(1, OcReportType::Host, 50, 60, 1000);
    assert!(engine.current_olr.is_some());

    assert_eq!(engine.evaluate_request(true, 1005), OcThrottleVerdict::EmergencyBypass);

    let mut throttled = 0;
    let mut admitted = 0;
    for _ in 0..10 {
        match engine.evaluate_request(false, 1010) {
            OcThrottleVerdict::ThrottleDrop { reduction_percentage, result_code } => {
                assert_eq!(reduction_percentage, 50);
                assert_eq!(result_code, DIAMETER_TOO_BUSY);
                throttled += 1;
            }
            OcThrottleVerdict::AdmitRequest => admitted += 1,
            _ => {}
        }
    }
    assert_eq!(throttled, 5);
    assert_eq!(admitted, 5);

    assert_eq!(engine.evaluate_request(false, 1070), OcThrottleVerdict::AdmitRequest);
}

#[test]
fn ocp_sequence_cap_and_clear() {
    let mut engine = S13OverloadControlEngine::new("h");
    engine.update_overload_report(5, OcReportType::Realm, 200, 100, 0);
    assert_eq!(engine.current_olr.unwrap().reduction_percentage, 100);
    engine.update_overload_report(4, OcReportType::Host, 10, 100, 50);
    assert_eq!(engine.current_olr.unwrap().sequence_number, 5);
    engine.update_overload_report(6, OcReportType::Host, 0, 100, 50);
    assert!(engine.current_olr.is_none());
    let r = OcOverloadReport { sequence_number: 1, report_type: OcReportType::Host, reduction_percentage: 1, validity_duration_secs: 10, issued_at_secs: 5 };
    assert!(!r.is_expired(14));
    assert!(r.is_expired(15));
}

#[test]
fn request_counter_wraps_to_zero() {
    let mut engine = S13OverloadControlEngine::new("eir02");
    engine.update_overload_report(1, OcReportType::Host, 50, 60, 1000);
    engine.request_counter = u64::MAX;
    assert_eq!(engine.evaluate_request(false, 1001), OcThrottleVerdict::AdmitRequest);
    assert_eq!(engine.request_counter, 0);
}
