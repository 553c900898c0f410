use lib::diameter::DiameterAvp;
use lib::diameter_slh::{HssSlhEngine, ServingNodeInfo};

#[test]
fn serving_node_roundtrip() {
    let n = ServingNodeInfo::new("mme1.epc", "epc.example");
    let avp = n.to_grouped_avp();
    assert_eq!(avp.code, 2401);
    assert_eq!(ServingNodeInfo::from_grouped_avp(&avp), Some(n));
    let only_name = DiameterAvp::new_vendor(2402, 0xC0, 10415, b"mme").serialize();
    let partial = DiameterAvp::new_vendor(2401, 0xC0, 10415, &only_name);
    assert_eq!(ServingNodeInfo::from_grouped_avp(&partial), None);
}

#[test]
fn routing_info_for_known_and_unknown() {
    let mut hss = HssSlhEngine::new();
    hss.register_location("001010000000001", "mme1.epc", "epc.example");
    let ria = hss.handle_rir("001010000000001");
    assert_eq!(ria.header.command_code, 8388620);
    assert_eq!(ria.header.application_id, 16777291);
    assert_eq!(ria.get_avp(268).unwrap().as_u32(), Some(2001));
    let node = ServingNodeInfo::from_grouped_avp(ria.get_avp(2401).unwrap()).unwrap();
    assert_eq!(node.mme_name, "mme1.epc");
    assert_eq!(ria.get_avp(2403).unwrap().data, vec![0, 0, 0, 1]);
    let unknown = hss.handle_rir("999");
    assert_eq!(unknown.avps.len(), 1);
    assert_eq!(unknown.get_avp(268).unwrap().as_u32(), Some(5001));
    assert_eq!(hss.total_rir_queries, 2);
}
