use lib::diameter_s13::{EirS13Engine, EquipmentStatus};

#[test]
fn equipment_status_codes() {
    assert_eq!(EquipmentStatus::from_u32(1), EquipmentStatus::Blacklisted);
    assert_eq!(EquipmentStatus::from_u32(2), EquipmentStatus::Greylisted);
    assert_eq!(EquipmentStatus::from_u32(9), EquipmentStatus::Whitelisted);
    assert_eq!(EquipmentStatus::Greylisted.as_u32(), 2);
}

#[test]
fn eir_checks_and_counts() {
    let mut eir = EirS13Engine::new();
    eir.set_imei_status("860000000000001", EquipmentStatus::Blacklisted);
    eir.set_imei_status("860000000000002", EquipmentStatus::Greylisted);
    assert_eq!(eir.query_imei("860000000000001"), EquipmentStatus::Blacklisted);
    assert_eq!(eir.query_imei("860000000000002"), EquipmentStatus::Greylisted);
    assert_eq!(eir.query_imei("860000000000003"), EquipmentStatus::Whitelisted);
    assert_eq!(eir.total_checks_count, 3);
    assert_eq!(eir.blacklisted_drops_count, 1);
    let eca = eir.handle_ecr("860000000000001");
    assert_eq!(eca.header.command_code, 324);
    assert_eq!(eca.header.application_id, 16777252);
    assert_eq!(eca.get_avp(268).unwrap().as_u32(), Some(2001));
    let st = eca.get_avp(1445).unwrap();
    assert_eq!(st.vendor_id, Some(10415));
    assert_eq!(st.data, vec![0, 0, 0, 1]);
    assert_eq!(eir.total_checks_count, 4);
    assert_eq!(eir.blacklisted_drops_count, 2);
}
