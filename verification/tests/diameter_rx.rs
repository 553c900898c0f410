use lib::diameter_rx::{
    AaRequest, MediaComponentDescription, MediaSubComponent, MediaType, PcrfRxEngine,
    AVP_SPECIFIC_ACTION,
};

fn voice_component(n: u32, ul: u32, dl: u32) -> MediaComponentDescription {
    let mut mc = MediaComponentDescription::new(n, MediaType::Audio);
    mc.max_bandwidth_ul = ul;
    mc.max_bandwidth_dl = dl;
    let mut sc = MediaSubComponent::new(1);
    sc.flow_descriptions.push("permit out 17 from 10.0.0.1 to 10.0.0.2 4000".to_string());
    sc.flow_usage = 1;
    mc.sub_components.push(sc);
    mc
}

#[test]
fn media_type_codes() {
    assert_eq!(MediaType::from_u32(0), MediaType::Audio);
    assert_eq!(MediaType::from_u32(4), MediaType::Control);
    assert_eq!(MediaType::from_u32(99), MediaType::Other);
    assert_eq!(MediaType::Video.as_u32(), 1);
    assert_eq!(MediaType::from_u32(MediaType::Message.as_u32()), MediaType::Message);
}

#[test]
fn sub_component_avp_roundtrip() {
    let mut sc = MediaSubComponent::new(7);
    sc.flow_descriptions.push("permit in ip from any to any".to_string());
    sc.flow_status = 2;
    let avp = sc.to_avp();
    assert_eq!(avp.code, 519);
    assert_eq!(MediaSubComponent::parse_avp(&avp), Some(sc));
    let fresh = MediaSubComponent::new(3);
    assert_eq!(fresh.flow_status, 3);
    assert_eq!(fresh.flow_usage, 0);
}

#[test]
fn media_component_avp_roundtrip() {
    let mc = voice_component(1, 64_000, 64_000);
    let avp = mc.to_avp();
    assert_eq!(avp.code, 517);
    assert_eq!(MediaComponentDescription::parse_avp(&avp), Some(mc));
}

#[test]
fn aar_message_roundtrip() {
    let mut req = AaRequest::new("rx;1", "IMS-Voice");
    req.media_components.push(voice_component(1, 32_000, 48_000));
    req.media_components.push(MediaComponentDescription::new(2, MediaType::Video));
    let msg = req.to_diameter_message(11, 22);
    assert!(msg.header.is_request());
    assert_eq!(msg.header.command_code, 265);
    assert_eq!(msg.header.hop_by_hop_id, 11);
    assert_eq!(msg.header.end_to_end_id, 22);
    assert_eq!(AaRequest::from_diameter_message(&msg), Some(req));
}

#[test]
fn aar_grants_bandwidth_with_best_qci() {
    let mut pcrf = PcrfRxEngine::new(1_000_000);
    let mut req = AaRequest::new("rx;a", "af");
    req.media_components.push(voice_component(1, 100_000, 200_000));
    req.media_components.push(MediaComponentDescription::new(2, MediaType::Video));
    let ans = pcrf.process_aar(&req);
    assert_eq!(ans.header.command_code, 265);
    assert_eq!(ans.get_avp(268).unwrap().as_u32(), Some(2001));
    assert_eq!(ans.get_avp(AVP_SPECIFIC_ACTION).unwrap().as_u32(), Some(1));
    // The video component carries the default 64 kbit/s each way.
    assert_eq!(pcrf.allocated_bandwidth_bps, 428_000);
    let s = pcrf.sessions.get("rx;a").unwrap();
    assert_eq!(s.authorized_qci, 1);
    assert_eq!(s.granted_bandwidth_ul_bps, 164_000);
    assert_eq!(s.granted_bandwidth_dl_bps, 264_000);
    assert!(s.is_active);
}

#[test]
fn aar_qci_by_media() {
    let cases = [
        (MediaType::Video, 2u32),
        (MediaType::Control, 5),
        (MediaType::Data, 9),
    ];
    for (t, q) in cases {
        let mut pcrf = PcrfRxEngine::new(1_000_000);
        let mut req = AaRequest::new("s", "af");
        req.media_components.push(MediaComponentDescription::new(1, t));
        let ans = pcrf.process_aar(&req);
        assert_eq!(ans.get_avp(AVP_SPECIFIC_ACTION).unwrap().as_u32(), Some(q));
    }
    // No component at all: the default QCI.
    let mut pcrf = PcrfRxEngine::new(0);
    let ans = pcrf.process_aar(&AaRequest::new("e", "af"));
    assert_eq!(ans.get_avp(AVP_SPECIFIC_ACTION).unwrap().as_u32(), Some(9));
}

#[test]
fn aar_over_capacity_is_refused() {
    let mut pcrf = PcrfRxEngine::new(250_000);
    let mut req = AaRequest::new("rx;b", "af");
    req.media_components.push(voice_component(1, 100_000, 200_000));
    let ans = pcrf.process_aar(&req);
    assert_eq!(ans.get_avp(268).unwrap().as_u32(), Some(5012));
    assert!(ans.get_avp(AVP_SPECIFIC_ACTION).is_none());
    assert_eq!(pcrf.allocated_bandwidth_bps, 0);
    assert!(pcrf.sessions.get("rx;b").is_none());
}

#[test]
fn aar_update_replaces_session_bandwidth() {
    let mut pcrf = PcrfRxEngine::new(500_000);
    let mut req = AaRequest::new("rx;c", "af");
    req.media_components.push(voice_component(1, 200_000, 200_000));
    pcrf.process_aar(&req);
    assert_eq!(pcrf.allocated_bandwidth_bps, 400_000);
    // The same session asks again for less: the old grant is given back first.
    let mut req2 = AaRequest::new("rx;c", "af");
    req2.media_components.push(voice_component(1, 150_000, 150_000));
    let ans = pcrf.process_aar(&req2);
    assert_eq!(ans.get_avp(268).unwrap().as_u32(), Some(2001));
    assert_eq!(pcrf.allocated_bandwidth_bps, 300_000);
}

#[test]
fn str_releases_bandwidth() {
    let mut pcrf = PcrfRxEngine::new(1_000_000);
    let mut req = AaRequest::new("rx;d", "af");
    req.media_components.push(voice_component(1, 64_000, 64_000));
    pcrf.process_aar(&req);
    assert_eq!(pcrf.allocated_bandwidth_bps, 128_000);
    let sta = pcrf.process_str("rx;d");
    assert_eq!(sta.header.command_code, 275);
    assert_eq!(sta.get_avp(268).unwrap().as_u32(), Some(2001));
    assert_eq!(pcrf.allocated_bandwidth_bps, 0);
    assert!(pcrf.sessions.get("rx;d").is_none());
    // Unknown session: success, nothing released.
    let sta = pcrf.process_str("rx;none");
    assert_eq!(sta.get_avp(268).unwrap().as_u32(), Some(2001));
    assert_eq!(pcrf.allocated_bandwidth_bps, 0);
}

#[test]
fn allocation_stays_the_sum_of_session_bandwidths() {
    let mut pcrf = PcrfRxEngine::new(10_000_000);
    let mut a = AaRequest::new("rx;1", "af");
    a.media_components.push(voice_component(1, 100_000, 200_000));
    pcrf.process_aar(&a);
    let mut b = AaRequest::new("rx;2", "af");
    b.media_components.push(voice_component(1, 50_000, 50_000));
    pcrf.process_aar(&b);
    // Re-authorizing a session replaces what it held.
    let mut a2 = AaRequest::new("rx;1", "af");
    a2.media_components.push(voice_component(1, 10_000, 20_000));
    pcrf.process_aar(&a2);
    let sum = |p: &PcrfRxEngine, ids: &[&str]| -> u64 {
        ids.iter()
            .filter_map(|id| p.sessions.get(id))
            .map(|s| s.granted_bandwidth_ul_bps as u64 + s.granted_bandwidth_dl_bps as u64)
            .sum()
    };
    assert_eq!(pcrf.allocated_bandwidth_bps, 130_000);
    assert_eq!(pcrf.allocated_bandwidth_bps, sum(&pcrf, &["rx;1", "rx;2"]));
    pcrf.process_str("rx;2");
    assert_eq!(pcrf.allocated_bandwidth_bps, sum(&pcrf, &["rx;1", "rx;2"]));
    assert_eq!(pcrf.allocated_bandwidth_bps, 30_000);
}
