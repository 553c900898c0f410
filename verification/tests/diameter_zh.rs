use lib::diameter_zh::{
    BsfZhEngine, GbaAuthVector, GbaType, ZhAvp, ZhMessage, DIAMETER_APPLICATION_ZH,
    DIAMETER_CMD_MULTIMEDIA_AUTH,
};

#[test]
fn test_diameter_zh_mar_maa_bootstrapping() {
    let mut bsf = BsfZhEngine::new("hss.gba.operator.com");
    let vector = GbaAuthVector { rand: [0x11; 16], autn: [0x22; 16], ck: [0x33; 16], ik: [0x44; 16] };
    bsf.register_subscriber("208950123456789", "<guss><uicc>yes</uicc></guss>", vector);

    let mar = ZhMessage::new_mar("sess-zh-01", "208950123456789", GbaType::Gba3G);
    assert_eq!(mar.application_id, DIAMETER_APPLICATION_ZH);
    assert_eq!(mar.command_code, DIAMETER_CMD_MULTIMEDIA_AUTH);

    let maa = bsf.handle_mar(&mar);
    assert!(!maa.is_request);

    let rc = maa.avps.iter().find_map(|a| if let ZhAvp::ResultCode(c) = a { Some(*c) } else { None });
    assert_eq!(rc, Some(2001));

    let guss = maa.avps.iter().find_map(|a| if let ZhAvp::GbaUserSecSettings(g) = a { Some(g.clone()) } else { None });
    assert_eq!(guss, Some("<guss><uicc>yes</uicc></guss>".into()));

    let ks_naf = bsf.derive_ks_naf("208950123456789", "naf.service.org").expect("Derive Ks_NAF");
    assert_eq!(ks_naf.len(), 32);
    assert_eq!(bsf.successful_bootstraps, 1);
}

#[test]
fn zh_key_values_and_unknown() {
    let mut bsf = BsfZhEngine::new("h");
    let vector = GbaAuthVector { rand: [0; 16], autn: [0; 16], ck: [0x0F; 16], ik: [0xF0; 16] };
    bsf.register_subscriber("1", "g", vector);
    let k = bsf.derive_ks_naf("1", "ab").unwrap();
    assert_eq!(k[0], 0x0F ^ b'a');
    assert_eq!(k[1], 0x0F ^ b'b');
    assert_eq!(k[16], 0xF0 ^ b'b');
    assert_eq!(k[17], 0xF0 ^ b'a');
    assert_eq!(bsf.derive_ks_naf("2", ""), None);
    let maa = bsf.handle_mar(&ZhMessage::new_mar("s", "2", GbaType::Gba2G));
    assert_eq!(maa.avps, vec![ZhAvp::ResultCode(5001)]);
    assert_eq!(bsf.successful_bootstraps, 0);
    assert_eq!(bsf.total_mar_requests, 1);
}
