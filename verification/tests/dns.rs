use lib::dns::{
    DnsAnswer, DnsCache, DnsError, DnsMessage, DnsRecordData, DNS_CLASS_IN, DNS_TYPE_A,
    DNS_TYPE_AAAA, DNS_TYPE_PTR,
};
use lib::net::{Ipv4Address, Ipv6Address};

fn query_header() -> Vec<u8> {
    let mut raw = vec![0u8; 12];
    raw[4..6].copy_from_slice(&1u16.to_be_bytes());
    raw
}

#[test]
fn rejects_self_referential_compression_pointer() {
    let mut raw = query_header();
    raw.extend_from_slice(&[0xc0, 0x0c]);
    raw.extend_from_slice(&DNS_TYPE_A.to_be_bytes());
    raw.extend_from_slice(&DNS_CLASS_IN.to_be_bytes());
    assert_eq!(DnsMessage::parse(&raw), Err(DnsError::CompressionLoop));
}

#[test]
fn rejects_multi_pointer_compression_cycle() {
    let mut raw = query_header();
    raw.extend_from_slice(&[0xc0, 0x0e, 0xc0, 0x0c]);
    raw.extend_from_slice(&DNS_TYPE_A.to_be_bytes());
    raw.extend_from_slice(&DNS_CLASS_IN.to_be_bytes());
    assert_eq!(DnsMessage::parse(&raw), Err(DnsError::CompressionLoop));
}

#[test]
fn rejects_compression_pointer_outside_packet() {
    let mut raw = query_header();
    raw.extend_from_slice(&[0xc0, 0xff]);
    raw.extend_from_slice(&DNS_TYPE_A.to_be_bytes());
    raw.extend_from_slice(&DNS_CLASS_IN.to_be_bytes());
    assert_eq!(DnsMessage::parse(&raw), Err(DnsError::InvalidCompressionPointer(255)));
}

#[test]
fn rejects_reserved_dns_label_type() {
    let mut raw = query_header();
    raw.push(0x40);
    raw.extend_from_slice(&[0u8; 64]);
    raw.push(0);
    raw.extend_from_slice(&DNS_TYPE_A.to_be_bytes());
    raw.extend_from_slice(&DNS_CLASS_IN.to_be_bytes());
    assert_eq!(DnsMessage::parse(&raw), Err(DnsError::ReservedLabelType(0x40)));
}

fn query_with_label_lengths(lengths: &[usize]) -> Vec<u8> {
    let mut raw = query_header();
    for &len in lengths {
        raw.push(len as u8);
        raw.extend(std::iter::repeat_n(b'a', len));
    }
    raw.push(0);
    raw.extend_from_slice(&DNS_TYPE_A.to_be_bytes());
    raw.extend_from_slice(&DNS_CLASS_IN.to_be_bytes());
    raw
}

#[test]
fn rejects_expanded_name_over_255_octets() {
    let raw = query_with_label_lengths(&[63, 63, 63, 62]);
    assert_eq!(DnsMessage::parse(&raw), Err(DnsError::NameTooLong));
}

#[test]
fn accepts_expanded_name_at_255_octet_boundary() {
    let raw = query_with_label_lengths(&[63, 63, 63, 61]);
    let parsed = DnsMessage::parse(&raw).unwrap();
    assert_eq!(parsed.questions.len(), 1);
    assert_eq!(parsed.questions[0].name.len(), 63 + 1 + 63 + 1 + 63 + 1 + 61);
}

#[test]
fn test_dns_query_and_response_roundtrip() {
    let hostname = "toy-tcpip.org";
    let resolved_ip = Ipv4Address::new(192, 168, 1, 10);
    let id = 0xbeef;

    let query_bytes = DnsMessage::build_query(id, hostname);
    let query = DnsMessage::parse(&query_bytes).unwrap();
    assert_eq!(query.id, id);
    assert!(!query.is_response);
    assert_eq!(query.questions.len(), 1);
    assert_eq!(query.questions[0].name, hostname);

    let resp_bytes = DnsMessage::build_response(id, hostname, resolved_ip, 300);
    let resp = DnsMessage::parse(&resp_bytes).unwrap();
    assert_eq!(resp.id, id);
    assert!(resp.is_response);
    assert_eq!(resp.answers.len(), 1);
    assert_eq!(resp.answers[0].ip, resolved_ip);
    assert_eq!(resp.answers[0].data, DnsRecordData::A(resolved_ip));
    assert_eq!(resp.answers[0].ttl, 300);
}

#[test]
fn test_dns_aaaa_and_ptr_records() {
    let hostname = "ipv6.toy-tcpip.org";
    let resolved_ip6 = Ipv6Address([0x20, 0x01, 0x0d, 0xb8, 0, 0, 0, 0, 0, 0, 0, 0, 0, 0, 0, 0x01]);
    let id = 0x1234;

    let q_bytes = DnsMessage::build_aaaa_query(id, hostname);
    let q = DnsMessage::parse(&q_bytes).unwrap();
    assert_eq!(q.questions[0].qtype, DNS_TYPE_AAAA);

    let resp_bytes = DnsMessage::build_aaaa_response(id, hostname, resolved_ip6, 600);
    let resp = DnsMessage::parse(&resp_bytes).unwrap();
    assert_eq!(resp.answers[0].rtype, DNS_TYPE_AAAA);
    assert_eq!(resp.answers[0].data, DnsRecordData::Aaaa(resolved_ip6));

    let ip4 = Ipv4Address::new(8, 8, 4, 4);
    let ptr_query = DnsMessage::build_ptr_query_v4(0x5678, ip4);
    let parsed_ptr_q = DnsMessage::parse(&ptr_query).unwrap();
    assert_eq!(parsed_ptr_q.questions[0].name, "4.4.8.8.in-addr.arpa");
    assert_eq!(parsed_ptr_q.questions[0].qtype, DNS_TYPE_PTR);

    let ptr_resp = DnsMessage::build_ptr_response(0x5678, "4.4.8.8.in-addr.arpa", "dns.google.com", 3600);
    let parsed_ptr_r = DnsMessage::parse(&ptr_resp).unwrap();
    assert_eq!(parsed_ptr_r.answers[0].data, DnsRecordData::Ptr("dns.google.com".to_string()));
}

#[test]
fn test_dns_cname_mx_txt_srv() {
    let id = 0x4321;
    let cname_resp = DnsMessage::build_cname_response(id, "alias.com", "target.com", 120);
    let parsed_cname = DnsMessage::parse(&cname_resp).unwrap();
    assert_eq!(parsed_cname.answers[0].data, DnsRecordData::Cname("target.com".to_string()));

    let mx_resp = DnsMessage::build_mx_response(id, "domain.com", 10, "mail.domain.com", 300);
    let parsed_mx = DnsMessage::parse(&mx_resp).unwrap();
    assert_eq!(
        parsed_mx.answers[0].data,
        DnsRecordData::Mx { preference: 10, exchange: "mail.domain.com".to_string() }
    );

    let txt_resp = DnsMessage::build_txt_response(
        id,
        "domain.com",
        &["v=spf1 include:_spf.google.com ~all"],
        300,
    );
    let parsed_txt = DnsMessage::parse(&txt_resp).unwrap();
    assert_eq!(
        parsed_txt.answers[0].data,
        DnsRecordData::Txt(vec!["v=spf1 include:_spf.google.com ~all".to_string()])
    );

    let srv_resp = DnsMessage::build_srv_response(
        id,
        "_sip._tcp.example.com",
        10,
        60,
        5060,
        "sipserver.example.com",
        3600,
    );
    let parsed_srv = DnsMessage::parse(&srv_resp).unwrap();
    assert_eq!(
        parsed_srv.answers[0].data,
        DnsRecordData::Srv {
            priority: 10,
            weight: 60,
            port: 5060,
            target: "sipserver.example.com".to_string()
        }
    );
}

#[test]
fn test_dns_cache_lifecycle() {
    let mut cache = DnsCache::new();
    let name = "cached.org";
    let ip = Ipv4Address::new(1, 1, 1, 1);
    let ans = DnsAnswer {
        name: name.to_string(),
        rtype: DNS_TYPE_A,
        rclass: DNS_CLASS_IN,
        ttl: 100,
        ip,
        data: DnsRecordData::A(ip),
    };

    cache.insert(name, DNS_TYPE_A, vec![ans], 1000);
    let found = cache.lookup_a(name, 1050).unwrap();
    assert_eq!(found, vec![ip]);

    assert!(cache.lookup_a(name, 1105).is_none());

    cache.insert_negative("nonexistent.org", DNS_TYPE_A, 30, 1000);
    assert_eq!(cache.lookup("nonexistent.org", DNS_TYPE_A, 1010), Some(Err(())));
    assert_eq!(cache.lookup("nonexistent.org", DNS_TYPE_A, 1040), None);
}

#[test]
fn dns_ptr_v6_nxdomain_and_cache_purge() {
    let ip6 = Ipv6Address([0x20, 0x01, 0x0d, 0xb8, 0, 0, 0, 0, 0, 0, 0, 0, 0, 0, 0, 0xab]);
    let q = DnsMessage::parse(&DnsMessage::build_ptr_query_v6(1, ip6)).unwrap();
    assert!(q.questions[0].name.starts_with("b.a.0.0."));
    assert!(q.questions[0].name.ends_with(".8.b.d.0.1.0.0.2.ip6.arpa"));

    let nx = DnsMessage::parse(&DnsMessage::build_nxdomain_response(9, "nope.org", DNS_TYPE_A)).unwrap();
    assert_eq!(nx.rcode, 3);
    assert!(nx.answers.is_empty());

    let mut cache = DnsCache::new();
    let ip = Ipv4Address::new(2, 2, 2, 2);
    let mk = |ttl| DnsAnswer { name: "X.org".to_string(), rtype: DNS_TYPE_A, rclass: 1, ttl, ip, data: DnsRecordData::A(ip) };
    cache.insert("X.ORG", DNS_TYPE_A, vec![mk(50), mk(20)], 0);
    let got = cache.lookup("x.org", DNS_TYPE_A, 5).unwrap().unwrap();
    assert_eq!(got.len(), 2);
    assert_eq!(got[0].ttl, 15);
    cache.purge_expired(25);
    assert!(cache.lookup("x.org", DNS_TYPE_A, 0).is_none());
    cache.insert("y.org", DNS_TYPE_A, vec![], 0);
    assert!(cache.lookup("y.org", DNS_TYPE_A, 0).is_none());
    cache.clear();
    assert!(DnsMessage::parse(&[0u8; 5]) == Err(DnsError::PacketTooShort(5)));
}

#[test]
fn dns_cache_read_back_and_purge_keep_live_entries() {
    let mut cache = DnsCache::new();
    let ip = Ipv4Address::new(9, 9, 9, 9);
    let rec = DnsAnswer { name: "a.net".to_string(), rtype: DNS_TYPE_A, rclass: 1, ttl: 40, ip, data: DnsRecordData::A(ip) };
    cache.insert("a.net", DNS_TYPE_A, vec![rec], 100);
    cache.insert_negative("gone.net", DNS_TYPE_A, 0, 100);
    // Read back with the remaining time, up to the last live second.
    assert_eq!(cache.lookup("A.NET", DNS_TYPE_A, 139).unwrap().unwrap()[0].ttl, 1);
    assert!(cache.lookup("a.net", DNS_TYPE_A, 140).is_none());
    // A name error with no TTL lives one second.
    assert_eq!(cache.lookup("gone.net", DNS_TYPE_A, 100), Some(Err(())));
    assert_eq!(cache.lookup("gone.net", DNS_TYPE_A, 101), None);
    // Purging at a time leaves what a lookup at that time sees.
    let before = cache.lookup("a.net", DNS_TYPE_A, 120).unwrap().unwrap();
    cache.purge_expired(120);
    let after = cache.lookup("a.net", DNS_TYPE_A, 120).unwrap().unwrap();
    assert_eq!(before, after);
    assert_eq!(after[0].ttl, 20);
    assert_eq!(cache.lookup("gone.net", DNS_TYPE_A, 120), None);
}
