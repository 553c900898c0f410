use lib::diameter_s13_graylist::{EirGraylistEngine, EirQosAction, EirStatus, S13GraylistAvp, S13GraylistMessage};

#[test]
fn test_eir_graylist_throttling_decision() {
    let mut eir = EirGraylistEngine::new("eir.telco.net", 256);

    eir.set_imei_status("861234567890123", EirStatus::GreyListed);
    eir.set_imei_status("869999999999999", EirStatus::BlackListed);

    let ecr1 = S13GraylistMessage::new_ecr("s13-sess-1", "861234567890123");
    let (eca1, qos1) = eir.handle_ecr(&ecr1);
    let st1 = eca1.avps.iter().find_map(|a| if let S13GraylistAvp::EquipmentStatus(s) = a { Some(*s) } else { None });
    assert_eq!(st1, Some(EirStatus::GreyListed));
    assert_eq!(qos1, EirQosAction::ThrottledAccess { max_kbps: 256 });

    let ecr2 = S13GraylistMessage::new_ecr("s13-sess-2", "869999999999999");
    let (_eca2, qos2) = eir.handle_ecr(&ecr2);
    assert_eq!(qos2, EirQosAction::DropAccess);

    let ecr3 = S13GraylistMessage::new_ecr("s13-sess-3", "860000000000000");
    let (_eca3, qos3) = eir.handle_ecr(&ecr3);
    assert_eq!(qos3, EirQosAction::FullAccess);
    assert_eq!(eir.total_ecr_checks, 3);
}
