use lib::diameter_s13_prime::{
    EirS13PrimeEngine, EquipmentStatus, S13PrimeAvp, S13PrimeMessage, TerminalInformation,
    DIAMETER_APPLICATION_S13_PRIME, DIAMETER_CMD_ME_IDENTITY_CHECK,
};

#[test]
fn test_s13_prime_ecr_eca_whitelisted() {
    let mut eir = EirS13PrimeEngine::new("eir.mnc001.mcc001.3gppnetwork.org");
    eir.register_equipment("861234567890123", EquipmentStatus::Whitelisted);

    let term_info = TerminalInformation { imei: "861234567890123".into(), software_version: Some("01".into()) };

    let ecr = S13PrimeMessage::new_ecr("sess-s13p-1", "001010000000001", term_info);
    let eca = eir.process_ecr(&ecr);

    assert_eq!(eca.application_id, DIAMETER_APPLICATION_S13_PRIME);
    assert_eq!(eca.command_code, DIAMETER_CMD_ME_IDENTITY_CHECK);
    assert!(!eca.is_request);

    let status = eca.avps.iter().find_map(|a| if let S13PrimeAvp::EquipmentStatus(s) = a { Some(*s) } else { None });
    assert_eq!(status, Some(EquipmentStatus::Whitelisted));
    assert_eq!(eir.total_checks, 1);
}

#[test]
fn test_s13_prime_banned_software_version_greylisted() {
    let mut eir = EirS13PrimeEngine::new("eir.operator.com");
    eir.register_equipment("869999999999999", EquipmentStatus::Whitelisted);
    eir.ban_software_version("99");

    let term_info = TerminalInformation { imei: "869999999999999".into(), software_version: Some("99".into()) };

    let ecr = S13PrimeMessage::new_ecr("sess-s13p-2", "001010000000002", term_info);
    let eca = eir.process_ecr(&ecr);

    let status = eca.avps.iter().find_map(|a| if let S13PrimeAvp::EquipmentStatus(s) = a { Some(*s) } else { None });
    assert_eq!(status, Some(EquipmentStatus::Greylisted));
}

#[test]
fn s13_prime_terminal_codec_and_blacklist() {
    let t = TerminalInformation { imei: "35".into(), software_version: Some("7".into()) };
    let b = t.serialize();
    assert_eq!(b, vec![0, 0, 5, 122, 0, 2, b'3', b'5', 0, 0, 5, 123, 0, 1, b'7']);
    assert_eq!(TerminalInformation::parse(&b), Some(t));
    assert_eq!(TerminalInformation::parse(&[0, 0, 5, 123, 0, 1, b'7']), None);
    let mut eir = EirS13PrimeEngine::new("r");
    eir.register_equipment("35", EquipmentStatus::Blacklisted);
    let ecr = S13PrimeMessage::new_ecr("s", "u", TerminalInformation { imei: "35".into(), software_version: None });
    let eca = eir.process_ecr(&ecr);
    assert_eq!(eca.avps, vec![S13PrimeAvp::ResultCode(2001), S13PrimeAvp::EquipmentStatus(EquipmentStatus::Blacklisted)]);
    assert_eq!(eir.blacklisted_hits, 1);
    let bare = S13PrimeMessage { command_code: 324, is_request: true, application_id: 1, session_id: "x".into(), avps: vec![] };
    assert_eq!(eir.process_ecr(&bare).avps, vec![S13PrimeAvp::ResultCode(5004), S13PrimeAvp::EquipmentStatus(EquipmentStatus::Whitelisted)]);
    assert_eq!(EquipmentStatus::from_u32(1), Some(EquipmentStatus::Blacklisted));
    assert_eq!(EquipmentStatus::Greylisted.as_u32(), 2);
}
