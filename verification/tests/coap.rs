use lib::coap::{
    CoapError, CoapPacket, COAP_CODE_205_CONTENT, COAP_CODE_GET, COAP_OPT_URI_PATH,
    COAP_PAYLOAD_MARKER, COAP_TYPE_ACK, COAP_TYPE_CON,
};

#[test]
fn test_coap_get_and_content_response_roundtrip() {
    let req = CoapPacket::build_get(0x1337, "sensors/temperature", &[0xAA, 0xBB]);
    let raw = req.serialize();

    let parsed = CoapPacket::parse(&raw).unwrap();
    assert_eq!(parsed.version, 1);
    assert_eq!(parsed.msg_type, COAP_TYPE_CON);
    assert_eq!(parsed.code, COAP_CODE_GET);
    assert_eq!(parsed.message_id, 0x1337);
    assert_eq!(parsed.token, vec![0xAA, 0xBB]);
    assert_eq!(parsed.options.len(), 1);
    assert_eq!(parsed.options[0].number, COAP_OPT_URI_PATH);
    assert_eq!(parsed.options[0].value, b"sensors/temperature");

    let resp = CoapPacket::build_response(&parsed, COAP_CODE_205_CONTENT, b"24.8 C");
    let resp_raw = resp.serialize();
    let parsed_resp = CoapPacket::parse(&resp_raw).unwrap();

    assert_eq!(parsed_resp.msg_type, COAP_TYPE_ACK);
    assert_eq!(parsed_resp.code, COAP_CODE_205_CONTENT);
    assert_eq!(parsed_resp.payload, b"24.8 C");
}

#[test]
fn test_coap_rejects_token_length_above_eight() {
    let raw = [0x49, COAP_CODE_GET, 0x12, 0x34, 0, 1, 2, 3, 4, 5, 6, 7, 8];
    assert_eq!(CoapPacket::parse(&raw), Err(CoapError::InvalidTokenLength(9)));
}

#[test]
fn test_coap_rejects_empty_payload_marker() {
    let raw = [0x40, COAP_CODE_GET, 0x12, 0x34, COAP_PAYLOAD_MARKER];
    assert_eq!(CoapPacket::parse(&raw), Err(CoapError::EmptyPayloadMarker));
}

#[test]
fn test_coap_rejects_option_number_overflow() {
    let raw = [0x40, COAP_CODE_GET, 0x12, 0x34, 0xE0, 0xFF, 0xFF];
    assert_eq!(CoapPacket::parse(&raw), Err(CoapError::OptionNumberOverflow));
}

#[test]
fn test_coap_payload_marker_with_data_remains_valid() {
    let raw = [0x40, COAP_CODE_205_CONTENT, 0x12, 0x34, COAP_PAYLOAD_MARKER, 0xAB];
    let parsed = CoapPacket::parse(&raw).unwrap();
    assert!(parsed.options.is_empty());
    assert_eq!(parsed.payload, vec![0xAB]);
}

#[test]
fn coap_other_errors_and_extended_option() {
    assert_eq!(CoapPacket::parse(&[0x40, 1, 2]), Err(CoapError::PacketTooShort(3)));
    assert_eq!(CoapPacket::parse(&[0x80, 1, 2, 3]), Err(CoapError::InvalidVersion(2)));
    assert_eq!(CoapPacket::parse(&[0x42, 1, 2, 3, 9]), Err(CoapError::PacketTooShort(5)));
    assert_eq!(CoapPacket::parse(&[0x40, 1, 2, 3, 0xD0]), Err(CoapError::InvalidOptionEncoding));
    assert_eq!(CoapPacket::parse(&[0x40, 1, 2, 3, 0x02, 9]), Err(CoapError::InvalidOptionEncoding));
    let long = vec![7u8; 20];
    let mut p = CoapPacket::build_get(1, "x", &[]);
    p.options[0].value = long.clone();
    let raw = p.serialize();
    assert_eq!(raw[4], 0xBD);
    assert_eq!(raw[5], 7);
    let back = CoapPacket::parse(&raw).unwrap();
    assert_eq!(back.options[0].value, long);
    assert_eq!(back.options[0].number, 11);
}
