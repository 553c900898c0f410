use lib::detnet_mpls_cw::{DetNetMplsControlWord, DetNetMplsEngine, DetNetMplsProfile, DetNetMplsResult};

#[test]
fn test_detnet_cw_codec() {
    let cw = DetNetMplsControlWord::new(0x4321);
    let ser = cw.serialize();
    assert_eq!(ser[0], 0x00);
    assert_eq!(ser[1], 0x00);
    assert_eq!(ser[2..4], [0x43, 0x21]);

    let parsed = DetNetMplsControlWord::parse(&ser).unwrap();
    assert_eq!(parsed.sequence_number, 0x4321);
}

#[test]
fn test_detnet_mpls_prf_and_pef_pipeline() {
    let mut engine = DetNetMplsEngine::new();

    let profile = DetNetMplsProfile {
        flow_id: 1,
        s_label: 1000,
        f_labels: vec![2001, 2002],
    };
    engine.register_profile(profile);

    let app_data = b"CriticalIndustrialControlPayload";

    let rep_res = engine.ingress_replicate(1, app_data);
    let frames = match rep_res {
        DetNetMplsResult::ReplicatedPaths { s_label, seq, frames } => {
            assert_eq!(s_label, 1000);
            assert_eq!(seq, 0);
            assert_eq!(frames.len(), 2);
            frames
        }
        other => panic!("Expected ReplicatedPaths, got {:?}", other),
    };

    let service_pdu_path1 = &frames[0].1[4..];
    let elim1 = engine.egress_eliminate(service_pdu_path1);
    match elim1 {
        DetNetMplsResult::AcceptedUnique { s_label, seq, payload } => {
            assert_eq!(s_label, 1000);
            assert_eq!(seq, 0);
            assert_eq!(payload, app_data);
        }
        other => panic!("Expected AcceptedUnique for path 1, got {:?}", other),
    }

    let service_pdu_path2 = &frames[1].1[4..];
    let elim2 = engine.egress_eliminate(service_pdu_path2);
    match elim2 {
        DetNetMplsResult::DuplicateDropped { s_label, seq } => {
            assert_eq!(s_label, 1000);
            assert_eq!(seq, 0);
        }
        other => panic!("Expected DuplicateDropped for path 2, got {:?}", other),
    }
}

#[test]
fn detnet_mpls_frame_bytes_and_errors() {
    assert!(DetNetMplsControlWord::parse(&[0x10, 0, 0, 1]).is_none());
    assert!(DetNetMplsControlWord::parse(&[0, 0, 0]).is_none());
    assert_eq!(DetNetMplsControlWord::parse(&[0x0F, 0xFF, 0x01, 0x02]).unwrap().sequence_number, 0x0102);

    let mut engine = DetNetMplsEngine::new();
    assert_eq!(
        engine.ingress_replicate(9, b"x"),
        DetNetMplsResult::InvalidPacket("Unknown Flow ID".to_string())
    );
    engine.register_profile(DetNetMplsProfile { flow_id: 9, s_label: 5, f_labels: vec![7] });
    match engine.ingress_replicate(9, b"AB") {
        DetNetMplsResult::ReplicatedPaths { frames, .. } => {
            // F-label 7: 0x00007040; S-label 5: 0x00005140; d-CW seq 0; payload.
            assert_eq!(
                frames[0].1,
                vec![0x00, 0x00, 0x70, 0x40, 0x00, 0x00, 0x51, 0x40, 0, 0, 0, 0, b'A', b'B']
            );
        }
        other => panic!("unexpected {:?}", other),
    }
    match engine.ingress_replicate(9, b"AB") {
        DetNetMplsResult::ReplicatedPaths { seq, .. } => assert_eq!(seq, 1),
        other => panic!("unexpected {:?}", other),
    }
    assert_eq!(
        engine.egress_eliminate(&[0, 0, 0]),
        DetNetMplsResult::InvalidPacket("Service PDU too short".to_string())
    );
    assert_eq!(
        engine.egress_eliminate(&[0, 0, 0x51, 0x40, 0xF0, 0, 0, 1]),
        DetNetMplsResult::InvalidPacket("Invalid DetNet Control Word".to_string())
    );
}
