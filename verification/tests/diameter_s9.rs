use lib::diameter::DiameterAvp;
use lib::diameter_s9::{PcrfS9Engine, SubsessionEnforcementInfo};

#[test]
fn enforcement_info_roundtrip() {
    let i = SubsessionEnforcementInfo::new(7, 1_000, 5_000);
    let avp = i.to_grouped_avp();
    assert_eq!(avp.code, 2201);
    assert_eq!(avp.vendor_id, Some(10415));
    assert_eq!(SubsessionEnforcementInfo::from_grouped_avp(&avp), Some(i));
    // Missing downlink limit: nothing.
    let mut inner = Vec::new();
    inner.extend_from_slice(&DiameterAvp::new_vendor(2202, 0xC0, 10415, &7u32.to_be_bytes()).serialize());
    inner.extend_from_slice(&DiameterAvp::new_vendor(516, 0xC0, 10415, &9u32.to_be_bytes()).serialize());
    let partial = DiameterAvp::new_vendor(2201, 0xC0, 10415, &inner);
    assert_eq!(SubsessionEnforcementInfo::from_grouped_avp(&partial), None);
}

#[test]
fn ccr_records_subsession() {
    let mut v = PcrfS9Engine::new(false);
    let i = SubsessionEnforcementInfo::new(3, 10, 20);
    let cca = v.handle_ccr(i.clone());
    assert_eq!(cca.header.command_code, 272);
    assert_eq!(cca.header.application_id, 16777267);
    assert_eq!(cca.get_avp(268).unwrap().as_u32(), Some(2001));
    assert_eq!(SubsessionEnforcementInfo::from_grouped_avp(cca.get_avp(2201).unwrap()), Some(i.clone()));
    assert_eq!(v.cc_requests_processed, 1);
    assert_eq!(v.roaming_subsessions.get(&3), Some(&i));
    let d = PcrfS9Engine::default();
    assert!(!d.is_home_pcrf);
}
