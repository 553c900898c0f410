use lib::detnet_tsn::{
    DetNetIpFlowKey, DetNetRTagHeader, DetNetTsnForwardResult, DetNetTsnGateway, TsnStreamId,
    TsnStreamProfile,
};
use lib::net::{Ipv4Address, MacAddress};

#[test]
fn test_detnet_tsn_rtag_codec() {
    let rtag = DetNetRTagHeader::new(12345);
    let ser = rtag.serialize();
    assert_eq!(ser.len(), 6);
    let parsed = DetNetRTagHeader::parse(&ser).unwrap();
    assert_eq!(parsed.sequence_number, 12345);
}

fn flow_and_profile() -> (DetNetIpFlowKey, TsnStreamId, TsnStreamProfile) {
    let flow_key = DetNetIpFlowKey {
        src_ip: Ipv4Address::new(10, 0, 0, 1),
        dst_ip: Ipv4Address::new(10, 0, 0, 2),
        src_port: 5000,
        dst_port: 6000,
        protocol: 17,
        dscp: 46,
    };
    let stream_mac = MacAddress([0x00, 0x11, 0x22, 0x33, 0x44, 0x55]);
    let stream_id = TsnStreamId::new(stream_mac, 1);
    let profile = TsnStreamProfile {
        stream_id,
        src_mac: stream_mac,
        dst_mac: MacAddress([0x00, 0xaa, 0xbb, 0xcc, 0xdd, 0xee]),
        vlan_id: 100,
        pcp: 6,
        queue_id: 6,
    };
    (flow_key, stream_id, profile)
}

fn udp_packet() -> Vec<u8> {
    let mut ip_pkt = vec![0x45, 46 << 2, 0, 32, 0, 0, 0, 0, 64, 17, 0, 0];
    ip_pkt.extend_from_slice(&[10, 0, 0, 1]);
    ip_pkt.extend_from_slice(&[10, 0, 0, 2]);
    ip_pkt.extend_from_slice(&5000u16.to_be_bytes());
    ip_pkt.extend_from_slice(&6000u16.to_be_bytes());
    ip_pkt.extend_from_slice(&[0, 12, 0, 0]);
    ip_pkt.extend_from_slice(b"DetNetTSN");
    ip_pkt
}

#[test]
fn test_detnet_tsn_ingress_encap_and_egress_frer() {
    let mut gateway = DetNetTsnGateway::new();
    let (flow_key, stream_id, profile) = flow_and_profile();
    gateway.register_flow_mapping(flow_key, profile);
    let ip_pkt = udp_packet();

    let encap_res = gateway.encapsulate_ip_to_tsn(&ip_pkt);
    let tsn_frame = match encap_res {
        DetNetTsnForwardResult::EncapsulatedTsnFrame { vlan_id, pcp, queue_id, frame, .. } => {
            assert_eq!(vlan_id, 100);
            assert_eq!(pcp, 6);
            assert_eq!(queue_id, 6);
            frame
        }
        other => panic!("Expected EncapsulatedTsnFrame, got {:?}", other),
    };

    let decap_res1 = gateway.decapsulate_tsn_to_ip(stream_id, &tsn_frame);
    match decap_res1 {
        DetNetTsnForwardResult::DecapsulatedIpPacket { packet, .. } => {
            assert_eq!(packet, ip_pkt);
        }
        other => panic!("Expected DecapsulatedIpPacket, got {:?}", other),
    }

    let decap_res2 = gateway.decapsulate_tsn_to_ip(stream_id, &tsn_frame);
    match decap_res2 {
        DetNetTsnForwardResult::DuplicateDropped { stream_id: s_id, seq } => {
            assert_eq!(s_id, stream_id);
            assert_eq!(seq, 0);
        }
        other => panic!("Expected DuplicateDropped, got {:?}", other),
    }
}

#[test]
fn detnet_tsn_frame_layout_and_errors() {
    let mut gateway = DetNetTsnGateway::new();
    let (flow_key, stream_id, profile) = flow_and_profile();
    assert_eq!(stream_id.0, [0x00, 0x11, 0x22, 0x33, 0x44, 0x55, 0x00, 0x01]);
    assert_eq!(
        gateway.encapsulate_ip_to_tsn(&[0u8; 10]),
        DetNetTsnForwardResult::InvalidFrame("IP packet too short".to_string())
    );
    assert_eq!(gateway.encapsulate_ip_to_tsn(&udp_packet()), DetNetTsnForwardResult::NoStreamMatch);
    gateway.register_flow_mapping(flow_key, profile);
    let pkt = udp_packet();
    let frame = match gateway.encapsulate_ip_to_tsn(&pkt) {
        DetNetTsnForwardResult::EncapsulatedTsnFrame { frame, .. } => frame,
        other => panic!("unexpected {:?}", other),
    };
    assert_eq!(&frame[0..6], &[0x00, 0xaa, 0xbb, 0xcc, 0xdd, 0xee]);
    assert_eq!(&frame[6..12], &[0x00, 0x11, 0x22, 0x33, 0x44, 0x55]);
    // 802.1Q: PCP 6, VID 100 -> TCI 0xC064.
    assert_eq!(&frame[12..16], &[0x81, 0x00, 0xC0, 0x64]);
    assert_eq!(&frame[16..22], &[0xF1, 0xC1, 0, 0, 0, 0]);
    assert_eq!(&frame[22..24], &[0x08, 0x00]);
    assert_eq!(&frame[24..], &pkt[..]);

    // The next packet of the stream carries sequence 1 and is not a duplicate.
    let frame2 = match gateway.encapsulate_ip_to_tsn(&pkt) {
        DetNetTsnForwardResult::EncapsulatedTsnFrame { frame, .. } => frame,
        other => panic!("unexpected {:?}", other),
    };
    assert_eq!(&frame2[20..22], &[0, 1]);

    assert_eq!(
        gateway.decapsulate_tsn_to_ip(stream_id, &frame[..20]),
        DetNetTsnForwardResult::InvalidFrame("TSN Frame too short".to_string())
    );
    let mut bad_q = frame.clone();
    bad_q[12] = 0x88;
    assert_eq!(
        gateway.decapsulate_tsn_to_ip(stream_id, &bad_q),
        DetNetTsnForwardResult::InvalidFrame("Missing 802.1Q tag".to_string())
    );
    let mut bad_r = frame.clone();
    bad_r[16] = 0;
    assert_eq!(
        gateway.decapsulate_tsn_to_ip(stream_id, &bad_r),
        DetNetTsnForwardResult::InvalidFrame("Missing or invalid R-TAG".to_string())
    );
    assert!(matches!(
        gateway.decapsulate_tsn_to_ip(stream_id, &frame2),
        DetNetTsnForwardResult::DecapsulatedIpPacket { .. }
    ));
    assert!(matches!(
        gateway.decapsulate_tsn_to_ip(stream_id, &frame),
        DetNetTsnForwardResult::DecapsulatedIpPacket { .. }
    ));
}
