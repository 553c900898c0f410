use lib::dhcpv6::{
    Dhcpv6Client, Dhcpv6ClientState, Dhcpv6Error, Dhcpv6Message, Dhcpv6Option, Dhcpv6Server, Duid,
    DHCPV6_MSG_ADVERTISE, DHCPV6_MSG_RELEASE, DHCPV6_MSG_REPLY, DHCPV6_MSG_REQUEST, DHCPV6_MSG_SOLICIT,
    DHCPV6_OPT_CLIENTID, DHCPV6_OPT_DNSSL, DHCPV6_OPT_IA_PD,
};
use lib::net::{Ipv6Address, MacAddress};

fn mac() -> MacAddress {
    MacAddress([0x00, 0x11, 0x22, 0x33, 0x44, 0x55])
}

#[test]
fn duid_codec() {
    let ll = Duid::new_ll(mac());
    let bytes = ll.serialize();
    assert_eq!(bytes, vec![0, 3, 0, 1, 0x00, 0x11, 0x22, 0x33, 0x44, 0x55]);
    assert_eq!(Duid::parse(&bytes), Some(ll));

    let llt = Duid::new_llt(mac(), 0x01020304);
    assert_eq!(Duid::parse(&llt.serialize()), Some(llt));

    let uuid = Duid::new_uuid([7u8; 16]);
    assert_eq!(Duid::parse(&uuid.serialize()), Some(uuid));

    let en = Duid::En { enterprise_num: 9, identifier: vec![1, 2, 3] };
    assert_eq!(Duid::parse(&en.serialize()), Some(en));

    assert_eq!(Duid::parse(&[0]), None);
    // A link-layer DUID of the wrong length reads as raw octets.
    assert_eq!(Duid::parse(&[0, 3, 0, 1, 5]), Some(Duid::Raw(vec![0, 3, 0, 1, 5])));
}

#[test]
fn message_codec_and_errors() {
    let m = Dhcpv6Message::build_solicit_full(0x1234_5678, &[0xAA, 0xBB], true, true);
    assert_eq!(m.msg_type, DHCPV6_MSG_SOLICIT);
    assert_eq!(m.transaction_id, 0x34_5678);
    assert_eq!(m.options.len(), 6);
    assert!(m.has_rapid_commit());
    let bytes = m.serialize();
    assert_eq!(&bytes[0..4], &[1, 0x34, 0x56, 0x78]);
    assert_eq!(Dhcpv6Message::parse(&bytes), Ok(m));

    assert_eq!(Dhcpv6Message::parse(&[1, 0, 0]), Err(Dhcpv6Error::PacketTooShort(3)));
    assert_eq!(Dhcpv6Message::parse(&[1, 0, 0, 1, 0, 1, 0, 9, 0]), Err(Dhcpv6Error::InvalidLength));
    // Trailing octets shorter than an option header are ignored.
    let p = Dhcpv6Message::parse(&[7, 0, 0, 1, 0, 1]).unwrap();
    assert!(p.options.is_empty());
}

#[test]
fn advertise_options_and_getters() {
    let ip = Ipv6Address([0x20, 0x01, 0x0d, 0xb8, 0, 0, 0, 0, 0, 0, 0, 0, 0, 0, 0, 0x64]);
    let prefix = Ipv6Address([0x20, 0x01, 0x0d, 0xb8, 0xca, 0xfe, 0, 1, 0, 0, 0, 0, 0, 0, 0, 0]);
    let dns1 = Ipv6Address([0x20, 0x01, 0x48, 0x60, 0x48, 0x60, 0, 0, 0, 0, 0, 0, 0, 0, 0x88, 0x88]);
    let dns2 = Ipv6Address([0x20, 0x01, 0x48, 0x60, 0x48, 0x60, 0, 0, 0, 0, 0, 0, 0, 0, 0x88, 0x44]);
    let search = vec!["lab.example.com".to_string(), "corp..net.".to_string()];
    let m = Dhcpv6Message::build_advertise_full(7, &[1], &[2], Some(ip), Some((prefix, 56)), &[dns1, dns2], &search);
    assert_eq!(m.msg_type, DHCPV6_MSG_ADVERTISE);
    assert_eq!(m.get_assigned_ipv6(), Some(ip));
    assert_eq!(m.get_delegated_prefix(), Some((prefix, 56)));
    let na = m.get_ia_na().unwrap();
    assert_eq!((na.iaid, na.t1, na.t2), (1, 1800, 2880));
    assert_eq!(na.addresses[0].valid_lifetime, 7200);
    assert_eq!(m.get_ia_pd().unwrap().prefixes[0].preferred_lifetime, 3600);
    assert_eq!(m.get_dns_servers(), vec![dns1, dns2]);
    let dnssl = m.options.iter().find(|o| o.code == DHCPV6_OPT_DNSSL).unwrap();
    assert_eq!(
        dnssl.data,
        b"\x03lab\x07example\x03com\x00\x04corp\x03net\x00".to_vec()
    );
    assert_eq!(m.get_dnssl(), vec!["lab.example.com".to_string(), "corp.net".to_string()]);
    assert!(!m.has_rapid_commit());

    // A bad label stops the search list; names before it are kept.
    let bad = Dhcpv6Message {
        msg_type: DHCPV6_MSG_REPLY,
        transaction_id: 1,
        options: vec![Dhcpv6Option { code: DHCPV6_OPT_DNSSL, data: vec![1, b'a', 0, 64, b'x'] }],
    };
    assert_eq!(bad.get_dnssl(), vec!["a".to_string()]);
}

#[test]
fn server_client_exchange() {
    let mut server = Dhcpv6Server::new();
    let mut client = Dhcpv6Client::new(Duid::new_ll(mac()));

    let solicit_bytes = client.start_solicit(false, true, 0);
    assert_eq!(client.state, Dhcpv6ClientState::Soliciting);
    assert_eq!(client.transaction_id, 2);
    let solicit = Dhcpv6Message::parse(&solicit_bytes).unwrap();
    assert!(solicit.options.iter().any(|o| o.code == DHCPV6_OPT_IA_PD));

    let advertise = server.handle_solicit(&solicit).unwrap();
    assert_eq!(advertise.msg_type, DHCPV6_MSG_ADVERTISE);
    let ip = advertise.get_assigned_ipv6().unwrap();
    assert_eq!(ip.0[14..16], [0, 100]);
    let (prefix, plen) = advertise.get_delegated_prefix().unwrap();
    assert_eq!((prefix.0[6], prefix.0[7], plen), (0, 1, 64));
    assert_eq!(server.next_ip_suffix, 101);

    let request_bytes = client.handle_advertise(&advertise.serialize(), 0).unwrap();
    assert_eq!(client.state, Dhcpv6ClientState::Requesting);
    let request = Dhcpv6Message::parse(&request_bytes).unwrap();
    assert_eq!(request.msg_type, DHCPV6_MSG_REQUEST);
    assert_eq!(request.get_assigned_ipv6(), Some(ip));

    let reply = server.handle_request(&request).unwrap();
    assert_eq!(reply.msg_type, DHCPV6_MSG_REPLY);
    // The binding is kept: same address, no new pool slot.
    assert_eq!(reply.get_assigned_ipv6(), Some(ip));
    assert_eq!(server.next_ip_suffix, 101);

    assert!(!client.handle_reply(&advertise.serialize(), 1000));
    assert!(client.handle_reply(&reply.serialize(), 1000));
    assert_eq!(client.state, Dhcpv6ClientState::Bound);
    assert_eq!(client.assigned_ip, Some(ip));
    assert_eq!(client.delegated_prefix, Some((prefix, 64)));
    assert_eq!(client.search_list, vec!["lab.example.com".to_string()]);
    assert_eq!(client.t1_ms, 1000 + 1_800_000);
    assert_eq!(client.t2_ms, 1000 + 2_880_000);
    assert_eq!(client.valid_until_ms, 1000 + 7_200_000);

    let release_bytes = client.create_release().unwrap();
    assert_eq!(client.state, Dhcpv6ClientState::Init);
    assert_eq!(client.assigned_ip, None);
    let release = Dhcpv6Message::parse(&release_bytes).unwrap();
    assert_eq!(release.msg_type, DHCPV6_MSG_RELEASE);
    let ack = server.handle_release(&release).unwrap();
    assert_eq!(ack.options[2].data, vec![0, 0]);
    assert_eq!(server.active_leases.len(), 0);
    assert!(client.create_release().is_none());

    // A message without a client id gets no answer.
    let anonymous = Dhcpv6Message { msg_type: DHCPV6_MSG_SOLICIT, transaction_id: 5, options: vec![] };
    assert!(server.handle_solicit(&anonymous).is_none());
    let mut rapid = Dhcpv6Message::build_solicit_full(9, &[0xCC], true, false);
    rapid.options.retain(|o| o.code != 99);
    let r = server.handle_solicit(&rapid).unwrap();
    assert_eq!(r.msg_type, DHCPV6_MSG_REPLY);
    assert!(r.has_rapid_commit());
    assert!(r.get_delegated_prefix().is_none());
    assert!(r.options.iter().any(|o| o.code == DHCPV6_OPT_CLIENTID && o.data == vec![0xCC]));
}
