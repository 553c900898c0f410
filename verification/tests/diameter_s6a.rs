use lib::diameter::DiameterAvp;
use lib::diameter_s6a::{EpsAuthVector, HssS6aEngine, HssSubscriberProfile};

fn profile(imsi: &str) -> HssSubscriberProfile {
    HssSubscriberProfile {
        imsi: imsi.to_string(),
        msisdn: "33600000001".to_string(),
        default_apn: "internet".to_string(),
        subscribed_ambr_ul_kbps: 50_000,
        subscribed_ambr_dl_kbps: 100_000,
        registered_mme: None,
    }
}

#[test]
fn eps_vector_avp_roundtrip() {
    let v = EpsAuthVector::new([1; 16], [2; 8], [3; 16], [4; 32]);
    let avp = v.to_grouped_avp();
    assert_eq!(avp.code, 1414);
    assert_eq!(avp.vendor_id, Some(10415));
    assert_eq!(avp.flags, 0xC0);
    assert_eq!(EpsAuthVector::from_grouped_avp(&avp), Some(v));
    // An XRES of the wrong size is ignored, so the vector is incomplete.
    let mut inner = Vec::new();
    inner.extend_from_slice(&DiameterAvp::new_vendor(1447, 0xC0, 10415, &[1; 16]).serialize());
    inner.extend_from_slice(&DiameterAvp::new_vendor(1448, 0xC0, 10415, &[2; 7]).serialize());
    inner.extend_from_slice(&DiameterAvp::new_vendor(1449, 0xC0, 10415, &[3; 16]).serialize());
    inner.extend_from_slice(&DiameterAvp::new_vendor(1450, 0xC0, 10415, &[4; 32]).serialize());
    let bad = DiameterAvp::new_vendor(1414, 0xC0, 10415, &inner);
    assert_eq!(EpsAuthVector::from_grouped_avp(&bad), None);
}

#[test]
fn auth_info_vectors_follow_count_and_plmn() {
    let mut hss = HssS6aEngine::new("epc.example");
    hss.provision_subscriber(profile("001010000000001"));
    assert!(hss.handle_auth_info_request("001019999999999", &[0, 0xF1, 0x10]).is_none());
    assert_eq!(hss.auth_vectors_generated_count, 0);
    let aia = hss.handle_auth_info_request("001010000000001", &[0x00, 0xF1, 0x10]).unwrap();
    assert_eq!(hss.auth_vectors_generated_count, 1);
    assert_eq!(aia.header.command_code, 318);
    assert_eq!(aia.header.application_id, 16777251);
    assert_eq!(aia.get_avp(268).unwrap().as_u32(), Some(2001));
    let info = aia.get_avp(1413).unwrap();
    let (vec_avp, _) = DiameterAvp::parse(&info.data).unwrap();
    let v = EpsAuthVector::from_grouped_avp(&vec_avp).unwrap();
    let mut rand = [0x5A; 16];
    rand[0] = 1;
    rand[1] = 0x00;
    rand[2] = 0xF1;
    rand[3] = 0x10;
    assert_eq!(v.rand, rand);
    assert_eq!(v.xres[0], 1 ^ 0x3C);
    assert_eq!(v.xres[1..], [0xAA; 7]);
    assert_eq!(v.autn[0], 0x90);
    assert_eq!(v.autn[1..], [0x80; 15]);
    assert_eq!(v.kasme[..16], rand);
    assert_eq!(v.kasme[16..], [0xEE; 16]);
    let second = hss.handle_auth_info_request("001010000000001", &[1, 2, 3]).unwrap();
    assert_eq!(hss.auth_vectors_generated_count, 2);
    assert_ne!(second, aia);
}

#[test]
fn update_location_registers_mme() {
    let mut hss = HssS6aEngine::new("epc.example");
    hss.provision_subscriber(profile("001010000000002"));
    assert!(hss.handle_update_location_request("nope", "mme1").is_none());
    assert_eq!(hss.location_updates_count, 0);
    let ula = hss.handle_update_location_request("001010000000002", "mme1.epc").unwrap();
    assert_eq!(ula.header.command_code, 316);
    assert_eq!(ula.avps.len(), 2);
    assert_eq!(hss.location_updates_count, 1);
    assert_eq!(
        hss.subscribers.get("001010000000002").unwrap().registered_mme,
        Some("mme1.epc".to_string())
    );
}
