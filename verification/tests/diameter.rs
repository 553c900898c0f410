use lib::diameter::{
    DiameterAvp, DiameterError, DiameterMessage, DiameterServer, DIAMETER_AVP_RESULT_CODE,
    DIAMETER_CMD_CAPABILITIES_EXCHANGE, DIAMETER_CMD_DEVICE_WATCHDOG, DIAMETER_FLAG_MANDATORY,
    DIAMETER_FLAG_REQUEST, DIAMETER_FLAG_VENDOR_SPECIFIC, DIAMETER_PORT, DIAMETER_SUCCESS,
    DIAMETER_COMMAND_UNSUPPORTED,
};
use lib::net::Ipv4Address;

#[test]
fn test_diameter_cer_cea_handshake() {
    let cer = DiameterMessage::build_cer(
        "mme01.epc.mnc001.mcc001.3gppnetwork.org",
        "epc.mnc001.mcc001.3gppnetwork.org",
        Ipv4Address::new(10, 100, 0, 1),
        10415,
        "ToyStack-4G-Core",
        0x11223344,
        0x55667788,
    );

    let raw_cer = cer.serialize();
    assert!(raw_cer.len() >= 20);

    let parsed_cer = DiameterMessage::parse(&raw_cer).unwrap();
    assert_eq!(parsed_cer.header.command_code, DIAMETER_CMD_CAPABILITIES_EXCHANGE);
    assert!(parsed_cer.header.flags & DIAMETER_FLAG_REQUEST != 0);
    assert_eq!(parsed_cer.avps.len(), 6);

    let server = DiameterServer::new(
        "hss01.epc.mnc001.mcc001.3gppnetwork.org",
        "epc.mnc001.mcc001.3gppnetwork.org",
    );
    let cea = server.handle_request(&parsed_cer);
    let raw_cea = cea.serialize();

    let parsed_cea = DiameterMessage::parse(&raw_cea).unwrap();
    assert_eq!(parsed_cea.header.command_code, DIAMETER_CMD_CAPABILITIES_EXCHANGE);
    assert!(parsed_cea.header.flags & DIAMETER_FLAG_REQUEST == 0);
    assert_eq!(parsed_cea.avps[0].code, DIAMETER_AVP_RESULT_CODE);
    assert_eq!(
        u32::from_be_bytes([
            parsed_cea.avps[0].data[0],
            parsed_cea.avps[0].data[1],
            parsed_cea.avps[0].data[2],
            parsed_cea.avps[0].data[3]
        ]),
        DIAMETER_SUCCESS
    );
    assert_eq!(DIAMETER_PORT, 3868);
}

fn empty_diameter_message() -> Vec<u8> {
    DiameterMessage::new_request(DIAMETER_CMD_DEVICE_WATCHDOG, 0, 1, 2).serialize()
}

fn set_message_length(raw: &mut [u8], length: usize) {
    let bytes = (length as u32).to_be_bytes();
    raw[1..4].copy_from_slice(&bytes[1..4]);
}

#[test]
fn test_diameter_rejects_declared_length_below_header() {
    let mut raw = empty_diameter_message();
    set_message_length(&mut raw, 19);
    assert_eq!(DiameterMessage::parse(&raw), Err(DiameterError::InvalidLength));
}

#[test]
fn test_diameter_rejects_trailing_partial_avp_header() {
    let mut raw = empty_diameter_message();
    raw.extend_from_slice(&[0, 0, 0, 1]);
    let length = raw.len();
    set_message_length(&mut raw, length);
    assert_eq!(DiameterMessage::parse(&raw), Err(DiameterError::InvalidLength));
}

#[test]
fn test_diameter_rejects_vendor_avp_shorter_than_vendor_header() {
    let mut raw = empty_diameter_message();
    raw.extend_from_slice(&123u32.to_be_bytes());
    raw.push(DIAMETER_FLAG_VENDOR_SPECIFIC);
    raw.extend_from_slice(&[0, 0, 8]);
    let length = raw.len();
    set_message_length(&mut raw, length);
    assert_eq!(DiameterMessage::parse(&raw), Err(DiameterError::InvalidLength));
}

#[test]
fn test_diameter_rejects_missing_avp_padding() {
    let mut raw = empty_diameter_message();
    raw.extend_from_slice(&123u32.to_be_bytes());
    raw.push(DIAMETER_FLAG_MANDATORY);
    raw.extend_from_slice(&[0, 0, 9]);
    raw.push(0xaa);
    let length = raw.len();
    set_message_length(&mut raw, length);
    assert_eq!(DiameterMessage::parse(&raw), Err(DiameterError::InvalidLength));
}

#[test]
fn test_diameter_empty_message_and_padded_avp_remain_valid() {
    let raw = empty_diameter_message();
    let parsed = DiameterMessage::parse(&raw).unwrap();
    assert!(parsed.avps.is_empty());
    assert_eq!(parsed.header.length, 20);

    let mut message = DiameterMessage::new_request(DIAMETER_CMD_DEVICE_WATCHDOG, 0, 1, 2);
    message.add_avp(DiameterAvp::new(123, &[0xaa]));
    let raw = message.serialize();
    assert_eq!(raw.len(), 32);
    let parsed = DiameterMessage::parse(&raw).unwrap();
    assert_eq!(parsed.avps.len(), 1);
    assert_eq!(parsed.avps[0].data, vec![0xaa]);
}

#[test]
fn diameter_rejects_short_packet_and_bad_version() {
    assert_eq!(DiameterMessage::parse(&[1u8; 10]), Err(DiameterError::PacketTooShort(10)));
    let mut raw = empty_diameter_message();
    raw[0] = 2;
    assert_eq!(DiameterMessage::parse(&raw), Err(DiameterError::UnsupportedVersion(2)));
}

#[test]
fn diameter_vendor_avp_roundtrip_and_accessors() {
    let avp = DiameterAvp::new_vendor(1445, DIAMETER_FLAG_MANDATORY | DIAMETER_FLAG_VENDOR_SPECIFIC, 10415, &[0, 0, 0, 2]);
    let raw = avp.serialize();
    assert_eq!(raw.len(), 16);
    assert_eq!(&raw[0..4], &1445u32.to_be_bytes());
    let (back, used) = DiameterAvp::parse(&raw).unwrap();
    assert_eq!(used, 16);
    assert_eq!(back, avp);
    assert_eq!(back.as_u32(), Some(2));
    assert_eq!(DiameterAvp::new_utf8(1, "abc").as_string(), Some("abc".to_string()));
    assert_eq!(DiameterAvp::new(1, &[0xff, 0xfe]).as_string(), None);
    assert_eq!(DiameterAvp::new(1, &[1, 2]).as_u32(), None);
    let all = DiameterAvp::parse_all(&[raw.clone(), raw.clone(), vec![0, 0]].concat());
    assert_eq!(all.len(), 2);
}

#[test]
fn diameter_server_rejects_unknown_command() {
    let server = DiameterServer::new("h", "r");
    let req = DiameterMessage::new_request(999, 0, 7, 8);
    let ans = server.handle_request(&req);
    assert_eq!(ans.avps[0].as_u32(), Some(DIAMETER_COMMAND_UNSUPPORTED));
    assert_eq!(ans.header.hop_by_hop_id, 7);
    assert!(!ans.header.is_request());
    assert_eq!(ans.get_avp(264).unwrap().data, b"h".to_vec());
    assert!(ans.get_avp(1).is_none());
}
