use lib::diameter_s13_imei_tamper::{ImeiValidationVerdict, S13ImeiTamperEngine};

#[test]
fn test_luhn_calculation_known_vectors() {
    let cd = S13ImeiTamperEngine::calculate_luhn_check_digit("35391800123456").unwrap();
    let full_imei = format!("35391800123456{}", cd);
    let mut engine = S13ImeiTamperEngine::new();
    let verdict = engine.validate_equipment_id(&full_imei);
    match verdict {
        ImeiValidationVerdict::ValidImei { check_digit, .. } => {
            assert_eq!(check_digit, cd);
        }
        _ => panic!("Expected ValidImei"),
    }
}

#[test]
fn test_corrupted_luhn_detected() {
    let mut engine = S13ImeiTamperEngine::new();
    let cd = S13ImeiTamperEngine::calculate_luhn_check_digit("35391800123456").unwrap();
    let tampered_cd = (cd + 1) % 10;
    let tampered_imei = format!("35391800123456{}", tampered_cd);

    let verdict = engine.validate_equipment_id(&tampered_imei);
    match verdict {
        ImeiValidationVerdict::LuhnChecksumFailed { expected_cd, actual_cd, .. } => {
            assert_eq!(expected_cd, cd);
            assert_eq!(actual_cd, tampered_cd);
        }
        _ => panic!("Expected LuhnChecksumFailed"),
    }
    assert_eq!(engine.total_luhn_failures, 1);
}

#[test]
fn imei_tamper_known_digits_and_other_verdicts() {
    assert_eq!(S13ImeiTamperEngine::calculate_luhn_check_digit("49015420323751"), Some(8));
    assert_eq!(S13ImeiTamperEngine::calculate_luhn_check_digit("4901542032375"), None);
    assert_eq!(S13ImeiTamperEngine::calculate_luhn_check_digit("4901542032375x"), None);
    let mut e = S13ImeiTamperEngine::new();
    assert_eq!(e.validate_equipment_id("12a"), ImeiValidationVerdict::InvalidCharacters { input: "12a".into() });
    assert_eq!(e.validate_equipment_id("123"), ImeiValidationVerdict::InvalidLength { input: "123".into(), length: 3 });
    assert!(matches!(e.validate_equipment_id("111111111111111"), ImeiValidationVerdict::HardwareTamperedCloned { .. }));
    assert_eq!(
        e.validate_equipment_id("490154203237518"),
        ImeiValidationVerdict::ValidImei { imei: "490154203237518".into(), tac: "49015420".into(), snr: "323751".into(), check_digit: 8 }
    );
    assert_eq!(
        e.validate_equipment_id("3539180012345600"),
        ImeiValidationVerdict::HardwareTamperedCloned {
            imei: "3539180012345600".into(),
            reason: "Software Version Number (SVN 0) out of valid range (1..99) for manufacturer Apple iPhone / Global Devices".into()
        }
    );
    assert_eq!(
        e.validate_equipment_id("3539180012345607"),
        ImeiValidationVerdict::ValidImeiSv { imei_sv: "3539180012345607".into(), tac: "35391800".into(), snr: "123456".into(), svn: "07".into() }
    );
    assert_eq!(e.total_validations, 6);
    assert_eq!(e.total_valid_imeisv, 1);
    assert_eq!(e.total_tampered_cloned, 2);
}
