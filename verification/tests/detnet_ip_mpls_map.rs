use lib::detnet_ip_mpls_map::{
    DetNetFLabelPath, DetNetIpFlowKey, DetNetIpMplsEgressResult, DetNetIpMplsEngine,
    DetNetIpMplsFlowProfile, DetNetIpMplsIngressResult,
};
use lib::net::Ipv4Address;

fn engine_with_profile() -> DetNetIpMplsEngine {
    let mut engine = DetNetIpMplsEngine::new();
    let flow_key = DetNetIpFlowKey {
        src_ip: Ipv4Address::new(192, 168, 1, 10),
        dst_ip: Ipv4Address::new(10, 0, 0, 50),
        protocol: 17,
        src_port: 8000,
        dst_port: 8000,
    };
    engine.register_profile(DetNetIpMplsFlowProfile {
        flow_id: 1,
        flow_key,
        s_label: 4000,
        s_tc: 5,
        f_paths: vec![
            DetNetFLabelPath { f_label: 101, traffic_class: 5, ttl: 64, out_if: "eth0".to_string() },
            DetNetFLabelPath { f_label: 102, traffic_class: 5, ttl: 64, out_if: "eth1".to_string() },
        ],
    });
    engine
}

fn sample_packet() -> Vec<u8> {
    let mut ip_pkt = vec![
        0x45, 0xA0, 0x00, 0x20, 0, 0, 0, 0, 64, 17, 0, 0, 192, 168, 1, 10, 10, 0, 0, 50,
    ];
    ip_pkt.extend_from_slice(&8000u16.to_be_bytes());
    ip_pkt.extend_from_slice(&8000u16.to_be_bytes());
    ip_pkt.extend_from_slice(&[0, 12, 0, 0]);
    ip_pkt.extend_from_slice(b"DetNetPayload");
    ip_pkt
}

#[test]
fn test_detnet_ip_to_mpls_mapping_and_failover() {
    let mut engine = engine_with_profile();
    let ip_pkt = sample_packet();

    let encap = engine.ingress_encap(&ip_pkt);
    let frames = match encap {
        DetNetIpMplsIngressResult::Replicated { flow_id, seq, mpls_packets } => {
            assert_eq!(flow_id, 1);
            assert_eq!(seq, 0);
            assert_eq!(mpls_packets.len(), 2);
            mpls_packets
        }
        other => panic!("Expected Replicated, got {:?}", other),
    };

    let decap1 = engine.egress_decap(&frames[0].1);
    match decap1 {
        DetNetIpMplsEgressResult::AcceptedUnique { s_label, seq, ip_packet } => {
            assert_eq!(s_label, 4000);
            assert_eq!(seq, 0);
            assert_eq!(ip_packet, ip_pkt);
        }
        other => panic!("Expected AcceptedUnique for primary frame, got {:?}", other),
    }

    let decap2 = engine.egress_decap(&frames[1].1);
    match decap2 {
        DetNetIpMplsEgressResult::DuplicateDropped { s_label, seq } => {
            assert_eq!(s_label, 4000);
            assert_eq!(seq, 0);
        }
        other => panic!("Expected DuplicateDropped for backup frame, got {:?}", other),
    }
}

#[test]
fn detnet_ip_mpls_shims_classification_and_errors() {
    assert_eq!(DetNetIpMplsEngine::dscp_to_mpls_tc(46), 5);
    assert_eq!(DetNetIpMplsEngine::dscp_to_mpls_tc(7), 0);

    let pkt = sample_packet();
    let (key, dscp) = DetNetIpFlowKey::parse_ipv4_packet(&pkt).unwrap();
    assert_eq!(dscp, 40);
    assert_eq!((key.protocol, key.src_port, key.dst_port), (17, 8000, 8000));
    let mut v6 = pkt.clone();
    v6[0] = 0x65;
    assert!(DetNetIpFlowKey::parse_ipv4_packet(&v6).is_none());
    assert!(DetNetIpFlowKey::parse_ipv4_packet(&pkt[..19]).is_none());
    let mut long_ihl = pkt.clone();
    long_ihl.truncate(40);
    long_ihl[0] = 0x4F; // 60-octet header, longer than the packet
    assert!(DetNetIpFlowKey::parse_ipv4_packet(&long_ihl).is_none());

    let mut engine = engine_with_profile();
    assert_eq!(engine.ingress_encap(&v6), DetNetIpMplsIngressResult::InvalidIpPacket);
    let mut other_flow = pkt.clone();
    other_flow[21] = 1;
    assert_eq!(engine.ingress_encap(&other_flow), DetNetIpMplsIngressResult::NoMatchingProfile);

    let frames = match engine.ingress_encap(&pkt) {
        DetNetIpMplsIngressResult::Replicated { mpls_packets, .. } => mpls_packets,
        other => panic!("unexpected {:?}", other),
    };
    assert_eq!(frames[0].0, "eth0");
    assert_eq!(frames[1].0, "eth1");
    // F-label 101, TC 5, S=0, TTL 64 -> 0x00065A40; S-label 4000, TC 5, S=1, TTL 64 -> 0x00FA0B40.
    assert_eq!(&frames[0].1[0..4], &[0x00, 0x06, 0x5A, 0x40]);
    assert_eq!(&frames[0].1[4..8], &[0x00, 0xFA, 0x0B, 0x40]);
    assert_eq!(&frames[0].1[8..12], &[0, 0, 0, 0]);

    assert_eq!(
        engine.egress_decap(&[0u8; 10]),
        DetNetIpMplsEgressResult::InvalidMplsPacket("MPLS frame too short".to_string())
    );
    assert_eq!(
        engine.egress_decap(&[0u8; 32]),
        DetNetIpMplsEgressResult::InvalidMplsPacket("Incomplete label stack".to_string())
    );
    let mut bad_cw = frames[0].1.clone();
    bad_cw[8] = 0x10;
    assert_eq!(
        engine.egress_decap(&bad_cw),
        DetNetIpMplsEgressResult::InvalidMplsPacket("Invalid d-CW (nibble != 0)".to_string())
    );
    let mut late_bottom = vec![0u8; 32];
    late_bottom[30] = 0x01;
    assert_eq!(
        engine.egress_decap(&late_bottom),
        DetNetIpMplsEgressResult::InvalidMplsPacket("Missing d-CW".to_string())
    );
}
