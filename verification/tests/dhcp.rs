use lib::dhcp::{DhcpError, DhcpMessageType, DhcpPacket, DhcpServer};
use lib::net::{Ipv4Address, MacAddress};

#[test]
fn test_dhcp_full_dora_negotiation() {
    let client_mac = MacAddress([0x12, 0x34, 0x56, 0x78, 0x9a, 0xbc]);
    let xid = 0xdeadbeef;
    let mut server = DhcpServer::new(
        Ipv4Address::new(192, 168, 1, 1),
        Ipv4Address::new(255, 255, 255, 0),
        Ipv4Address::new(192, 168, 1, 1),
        Ipv4Address::new(8, 8, 8, 8),
        Ipv4Address::new(192, 168, 1, 100),
        Ipv4Address::new(192, 168, 1, 200),
        86400,
    );

    let disc = DhcpPacket::build_discover(client_mac, xid);
    let offer = server.handle_packet(&disc).expect("DHCP Offer");
    assert_eq!(offer.msg_type, DhcpMessageType::Offer);
    assert_eq!(offer.yiaddr, Ipv4Address::new(192, 168, 1, 100));

    let req = DhcpPacket::build_request(client_mac, xid, offer.yiaddr, server.server_ip);
    let ack = server.handle_packet(&req).expect("DHCP ACK");
    assert_eq!(ack.msg_type, DhcpMessageType::Ack);
    assert_eq!(ack.yiaddr, Ipv4Address::new(192, 168, 1, 100));
    assert_eq!(ack.router, Some(Ipv4Address::new(192, 168, 1, 1)));
    assert_eq!(ack.subnet_mask, Some(Ipv4Address::new(255, 255, 255, 0)));
}

#[test]
fn dhcp_packet_wire_roundtrip_and_errors() {
    let mac = MacAddress([1, 2, 3, 4, 5, 6]);
    let offer = DhcpPacket::build_offer(
        mac,
        7,
        Ipv4Address::new(10, 0, 0, 5),
        Ipv4Address::new(10, 0, 0, 1),
        Ipv4Address::new(255, 0, 0, 0),
        Ipv4Address::new(10, 0, 0, 1),
        Ipv4Address::new(1, 1, 1, 1),
        3600,
    );
    let raw = offer.serialize();
    assert_eq!(raw.len(), 236 + 4 + 3 + 6 * 4 + 6 + 1);
    assert_eq!(DhcpPacket::parse(&raw), Ok(offer));
    assert_eq!(DhcpPacket::parse(&raw[..100]), Err(DhcpError::PacketTooShort(100)));
    let mut bad = raw.clone();
    bad[236] = 0;
    assert_eq!(DhcpPacket::parse(&bad), Err(DhcpError::InvalidMagicCookie));
    let mut trunc = raw[..240].to_vec();
    trunc.push(53);
    assert_eq!(DhcpPacket::parse(&trunc), Err(DhcpError::InvalidOptionLength));
    assert_eq!(DhcpMessageType::from_u8(9), DhcpMessageType::Unknown(9));
    assert_eq!(DhcpMessageType::Nak.to_u8(), 6);
}

#[test]
fn dhcp_server_reuses_lease_and_ignores_release() {
    let mut server = DhcpServer::new(
        Ipv4Address::new(10, 0, 0, 1),
        Ipv4Address::new(255, 255, 255, 0),
        Ipv4Address::new(10, 0, 0, 1),
        Ipv4Address::new(8, 8, 8, 8),
        Ipv4Address::new(10, 0, 0, 10),
        Ipv4Address::new(10, 0, 0, 11),
        60,
    );
    let a = MacAddress([1, 1, 1, 1, 1, 1]);
    let b = MacAddress([2, 2, 2, 2, 2, 2]);
    let o1 = server.handle_packet(&DhcpPacket::build_discover(a, 1)).unwrap();
    let o2 = server.handle_packet(&DhcpPacket::build_discover(a, 2)).unwrap();
    assert_eq!(o1.yiaddr, o2.yiaddr);
    let o3 = server.handle_packet(&DhcpPacket::build_discover(b, 3)).unwrap();
    assert_eq!(o3.yiaddr, Ipv4Address::new(10, 0, 0, 11));
    let mut rel = DhcpPacket::build_discover(a, 4);
    rel.msg_type = DhcpMessageType::Release;
    assert!(server.handle_packet(&rel).is_none());
}

#[test]
fn dhcp_packet_reads_back_after_serializing() {
    let p = DhcpPacket {
        op: 2,
        xid: 0x01020304,
        ciaddr: Ipv4Address::new(0, 0, 0, 0),
        yiaddr: Ipv4Address::new(10, 0, 0, 7),
        siaddr: Ipv4Address::new(10, 0, 0, 1),
        chaddr: MacAddress([1, 2, 3, 4, 5, 6]),
        msg_type: DhcpMessageType::Ack,
        subnet_mask: Some(Ipv4Address::new(255, 255, 255, 0)),
        router: None,
        dns: Some(Ipv4Address::new(9, 9, 9, 9)),
        server_id: Some(Ipv4Address::new(10, 0, 0, 1)),
        lease_time: Some(86_400),
    };
    assert_eq!(DhcpPacket::parse(&p.serialize()), Ok(p));
    let q = DhcpPacket { msg_type: DhcpMessageType::Unknown(42), lease_time: None, server_id: None, ..p };
    assert_eq!(DhcpPacket::parse(&q.serialize()), Ok(q));
}

#[test]
fn request_without_address_gets_lease_or_next_pool_address() {
    let mut server = DhcpServer::new(
        Ipv4Address::new(10, 0, 0, 1),
        Ipv4Address::new(255, 255, 255, 0),
        Ipv4Address::new(10, 0, 0, 1),
        Ipv4Address::new(8, 8, 8, 8),
        Ipv4Address::new(10, 0, 0, 50),
        Ipv4Address::new(10, 0, 0, 51),
        3600,
    );
    let a = MacAddress([1, 1, 1, 1, 1, 1]);
    let b = MacAddress([2, 2, 2, 2, 2, 2]);
    let c = MacAddress([3, 3, 3, 3, 3, 3]);
    let zero = Ipv4Address::new(0, 0, 0, 0);
    let srv = server.server_ip;
    let ack_a = server.handle_packet(&DhcpPacket::build_request(a, 1, zero, srv)).unwrap();
    assert_eq!(ack_a.yiaddr, Ipv4Address::new(10, 0, 0, 50));
    let ack_b = server.handle_packet(&DhcpPacket::build_request(b, 2, zero, srv)).unwrap();
    assert_eq!(ack_b.yiaddr, Ipv4Address::new(10, 0, 0, 51));
    // A client with a lease gets it again.
    let again = server.handle_packet(&DhcpPacket::build_request(a, 3, zero, srv)).unwrap();
    assert_eq!(again.yiaddr, Ipv4Address::new(10, 0, 0, 50));
    // Past the end of the pool the pointer stays at the end address.
    let ack_c = server.handle_packet(&DhcpPacket::build_request(c, 4, zero, srv)).unwrap();
    assert_eq!(ack_c.yiaddr, Ipv4Address::new(10, 0, 0, 51));
}
