use lib::diameter_sh::{HssShEngine, HssShSubscriberProfile};

fn hss() -> HssShEngine {
    let mut h = HssShEngine::new();
    h.register_subscriber(HssShSubscriberProfile::new("sip:alice@ims", "<repo/>", "REGISTERED"));
    h
}

#[test]
fn user_data_by_reference() {
    let mut h = hss();
    let uda = h.handle_udr("sip:alice@ims", 0);
    assert_eq!(uda.header.command_code, 306);
    assert_eq!(uda.header.application_id, 16777217);
    assert_eq!(uda.get_avp(268).unwrap().as_u32(), Some(2001));
    assert_eq!(uda.get_avp(702).unwrap().data, b"<repo/>".to_vec());
    assert_eq!(h.handle_udr("sip:alice@ims", 11).get_avp(702).unwrap().data, b"REGISTERED".to_vec());
    assert_eq!(h.handle_udr("sip:alice@ims", 1).get_avp(702).unwrap().data, b"sip:alice@ims".to_vec());
    let unknown = h.handle_udr("sip:bob@ims", 0);
    assert_eq!(unknown.get_avp(268).unwrap().as_u32(), Some(5001));
    assert!(unknown.get_avp(702).is_none());
    assert_eq!(h.total_udr_count, 4);
}

#[test]
fn subscriptions_add_once_and_remove() {
    let mut h = hss();
    let sna = h.handle_snr("as1", "sip:alice@ims", 0);
    assert_eq!(sna.header.command_code, 308);
    assert_eq!(sna.get_avp(268).unwrap().as_u32(), Some(2001));
    h.handle_snr("as1", "sip:alice@ims", 0);
    h.handle_snr("as2", "sip:alice@ims", 0);
    assert_eq!(h.subscriptions.get("sip:alice@ims").unwrap(), &vec!["as1".to_string(), "as2".to_string()]);
    h.handle_snr("as1", "sip:alice@ims", 1);
    assert_eq!(h.subscriptions.get("sip:alice@ims").unwrap(), &vec!["as2".to_string()]);
    let unknown = h.handle_snr("as1", "sip:bob@ims", 0);
    assert_eq!(unknown.get_avp(268).unwrap().as_u32(), Some(5001));
    assert!(h.subscriptions.get("sip:bob@ims").is_none());
    assert_eq!(h.total_snr_count, 5);
}
