use lib::diameter_slg::{
    AccuracyFulfilmentIndicator, DeferredLocationType, GmlcSlgEngine, LcsPriority, LcsQos,
    LcsResponseTime, LocationEstimate, LocationEvent, LocationReportAnswer, LocationReportRequest,
    LocationSessionState, ProvideLocationAnswer, ProvideLocationRequest, SlgLocationType,
    DEFERRED_LEAVING_FROM_AREA, DEFERRED_PERIODIC_LDR, DEFERRED_UE_AVAILABLE,
};

#[test]
fn slg_codes() {
    assert_eq!(SlgLocationType::from_u32(3), SlgLocationType::ActivateDeferredLocation);
    assert_eq!(SlgLocationType::from_u32(42), SlgLocationType::NotificationVerificationOnly);
    assert_eq!(SlgLocationType::CancelDeferredLocation.as_u32(), 4);
    assert_eq!(LcsPriority::from_u32(0), LcsPriority::HighestPriority);
    assert_eq!(LcsPriority::from_u32(7), LcsPriority::NormalPriority);
    assert_eq!(AccuracyFulfilmentIndicator::from_u32(1), AccuracyFulfilmentIndicator::RequestedAccuracyNotFulfilled);
    assert_eq!(LocationEvent::from_u32(2), LocationEvent::MoLr);
    assert_eq!(LocationEvent::from_u32(9), LocationEvent::DelayedLocationReporting);
    assert_eq!(LcsResponseTime::from_u32(1), LcsResponseTime::DelayTolerant);
    let d = DeferredLocationType(DEFERRED_PERIODIC_LDR | DEFERRED_UE_AVAILABLE);
    assert!(d.has_flag(DeferredLocationType(DEFERRED_PERIODIC_LDR)));
    assert!(!d.has_flag(DeferredLocationType(DEFERRED_LEAVING_FROM_AREA)));
    let q = LcsQos::default();
    assert_eq!(q.horizontal_accuracy, Some(50));
    assert_eq!(q.vertical_accuracy, None);
}

#[test]
fn plr_message_layout() {
    let mut plr = ProvideLocationRequest::new("g;1", "001010123456789", SlgLocationType::CurrentLocation, "gmlc", "realm", "mme-realm");
    plr.lcs_eps_client_name = Some("police".to_string());
    plr.periodic_ldr = None;
    let m = plr.to_diameter_message();
    assert_eq!(m.header.command_code, 8388620);
    assert_eq!(m.header.application_id, 16777255);
    assert_eq!(m.header.flags, 0xC0);
    let codes: Vec<u32> = m.avps.iter().map(|a| a.code).collect();
    assert_eq!(codes, vec![263, 264, 296, 283, 277, 1, 2500, 2503, 2501, 2505]);
    assert_eq!(m.get_avp(2503).unwrap().as_u32(), Some(1));
    assert_eq!(m.get_avp(2505).unwrap().as_u32(), Some(50));
    assert_eq!(m.get_avp(2501).unwrap().data, b"police".to_vec());
}

#[test]
fn pla_encodes_location_estimate() {
    let pla = ProvideLocationAnswer::success(
        "g;1",
        "mme",
        "realm",
        LocationEstimate::EllipsoidPointUncertaintyCircle { latitude: -2, longitude: 0x0102_0304, uncertainty_radius_m: 10 },
    );
    let m = pla.to_diameter_message();
    assert_eq!(m.header.flags, 0x40);
    assert_eq!(m.get_avp(268).unwrap().as_u32(), Some(2001));
    assert_eq!(
        m.get_avp(2516).unwrap().data,
        vec![0xFF, 0xFF, 0xFF, 0xFE, 1, 2, 3, 4, 0, 0, 0, 10]
    );
    assert_eq!(m.get_avp(2513).unwrap().as_u32(), Some(0));
    assert_eq!(m.get_avp(2514).unwrap().as_u32(), Some(0));
    let alt = LocationEstimate::EllipsoidPointAltitudeUncertainty {
        latitude: 1,
        longitude: 2,
        altitude_m: -1,
        uncertainty_semi_major_m: 5,
        uncertainty_semi_minor_m: 5,
        orientation_major_axis_deg: 0,
        uncertainty_altitude_m: 3,
        confidence_pct: 90,
    };
    assert_eq!(alt.encode(), vec![0, 0, 0, 1, 0, 0, 0, 2, 0xFF, 0xFF]);
    assert_eq!(LocationEstimate::Raw(vec![9, 8]).encode(), vec![9, 8]);
}

#[test]
fn lrr_and_lra_messages() {
    let mut lrr = LocationReportRequest::new("g;2", "001", LocationEvent::DeferredMtLrResponse, "mme", "r1", "r2", "gmlc");
    lrr.ecgi = Some(vec![1, 2, 3]);
    let m = lrr.to_diameter_message();
    assert_eq!(m.header.command_code, 8388621);
    assert_eq!(m.get_avp(2519).unwrap().as_u32(), Some(4));
    assert_eq!(m.get_avp(2518).unwrap().data, vec![1, 2, 3]);
    let lra = LocationReportAnswer::success("g;2", "gmlc", "r2").to_diameter_message();
    assert_eq!(lra.avps.len(), 4);
    assert_eq!(lra.get_avp(268).unwrap().as_u32(), Some(2001));
}

#[test]
fn immediate_location_session() {
    let mut g = GmlcSlgEngine::new("gmlc.op", "op");
    let plr = g.request_immediate_location("001010000000001", "mme.op", LcsQos::default());
    assert_eq!(plr.session_id, "gmlc.op;1");
    assert_eq!(g.next_session_counter, 2);
    assert_eq!(g.total_plr_sent, 1);
    assert_eq!(g.get_session_state("gmlc.op;1"), Some(&LocationSessionState::PendingLocationResponse));
    let loc = LocationEstimate::EllipsoidPoint { latitude: 100, longitude: 200 };
    let pla = ProvideLocationAnswer::success("gmlc.op;1", "mme", "op", loc.clone());
    assert!(g.process_pla(&pla));
    assert_eq!(g.get_session_state("gmlc.op;1"), Some(&LocationSessionState::LocationReceived));
    assert_eq!(g.get_last_location("gmlc.op;1"), Some(&loc));
    // Unknown session: counted, not known.
    let other = ProvideLocationAnswer::success("nope", "mme", "op", loc);
    assert!(!g.process_pla(&other));
    assert_eq!(g.total_pla_received, 2);
}

#[test]
fn failed_answer_completes_session() {
    let mut g = GmlcSlgEngine::new("g", "r");
    let plr = g.request_emergency_location("001", "mme");
    assert_eq!(plr.lcs_priority, LcsPriority::HighestPriority);
    assert_eq!(plr.location_type, SlgLocationType::CurrentOrLastKnownLocation);
    let mut pla = ProvideLocationAnswer::success("g;1", "mme", "r", LocationEstimate::Raw(vec![]));
    pla.result_code = 5001;
    assert!(g.process_pla(&pla));
    assert_eq!(g.get_session_state("g;1"), Some(&LocationSessionState::Completed));
    assert_eq!(g.get_last_location("g;1"), None);
}

#[test]
fn periodic_session_counts_down_and_completes() {
    let mut g = GmlcSlgEngine::new("g", "r");
    let plr = g.request_periodic_location("001", "mme", 2, 60);
    assert_eq!(plr.location_type, SlgLocationType::ActivateDeferredLocation);
    assert_eq!(plr.deferred_location_type, Some(DeferredLocationType(DEFERRED_PERIODIC_LDR)));
    assert_eq!(plr.lcs_reference_number, Some(2));
    assert_eq!(plr.periodic_ldr.unwrap().reporting_interval_sec, 60);
    assert_eq!(g.active_deferred_session_count(), 1);
    let mut lrr = LocationReportRequest::new("g;1", "001", LocationEvent::DeferredMtLrResponse, "mme", "r", "r", "g");
    lrr.location_estimate = Some(LocationEstimate::EllipsoidPoint { latitude: 1, longitude: 1 });
    let lra = g.process_lrr(&lrr);
    assert_eq!(lra.result_code, 2001);
    assert_eq!(lra.origin_host, "g");
    assert_eq!(g.get_session_state("g;1"), Some(&LocationSessionState::DeferredActive { reports_remaining: Some(1) }));
    g.process_lrr(&lrr);
    assert_eq!(g.get_session_state("g;1"), Some(&LocationSessionState::Completed));
    assert_eq!(g.get_location_history("g;1").unwrap().len(), 2);
    assert_eq!(g.active_deferred_session_count(), 0);
    assert_eq!(g.total_lrr_received, 2);
    assert_eq!(g.total_lra_sent, 2);
}

#[test]
fn cancel_deferred_location() {
    let mut g = GmlcSlgEngine::new("g", "r");
    g.request_periodic_location("001", "mme", 10, 30);
    g.request_immediate_location("002", "mme", LcsQos::default());
    assert_eq!(g.active_deferred_session_count(), 1);
    // Not deferred, or unknown: nothing.
    assert!(g.cancel_deferred_location("g;2", "mme").is_none());
    assert!(g.cancel_deferred_location("g;9", "mme").is_none());
    let plr = g.cancel_deferred_location("g;1", "mme").unwrap();
    assert_eq!(plr.location_type, SlgLocationType::CancelDeferredLocation);
    assert_eq!(plr.imsi, "001");
    assert_eq!(g.get_session_state("g;1"), Some(&LocationSessionState::Completed));
    assert_eq!(g.active_deferred_session_count(), 0);
    assert_eq!(g.total_plr_sent, 3);
    assert!(g.get_location_history("g;9").is_none());
}
