use lib::dccf_5g::{CollectionScope, DataDeliveryTarget, DccfEngine, DccfError};

fn scope(domain: &str, target: Option<&str>) -> CollectionScope {
    CollectionScope { data_domain: domain.to_string(), target_id: target.map(|s| s.to_string()) }
}

fn callback(uri: &str) -> DataDeliveryTarget {
    DataDeliveryTarget::DirectConsumer { callback_uri: uri.to_string() }
}

#[test]
fn subscriptions_share_collectors() {
    let mut d = DccfEngine::new("dccf-1");
    let a = d.subscribe("nwdaf-1", "amf", scope("UeMobility", None), callback("http://n1")).unwrap();
    assert_eq!(a, "dccf-sub-00000001");
    let b = d
        .subscribe("nwdaf-2", "AMF", scope("UeMobility", None), DataDeliveryTarget::AdrfStorage { adrf_id: "adrf".to_string() })
        .unwrap();
    assert_eq!(b, "dccf-sub-00000002");
    assert_eq!(d.active_source_collectors_count(), 1);
    d.subscribe("nwdaf-3", "smf", scope("SliceLoadLevel", Some("01-000001")), callback("http://n3")).unwrap();
    assert_eq!(d.active_source_collectors_count(), 2);
    assert_eq!(d.next_sub_counter, 4);
    assert_eq!(
        d.subscribe("x", "amf", scope("", None), callback("u")),
        Err(DccfError::InvalidFilterSpec("Data domain cannot be empty"))
    );
    assert_eq!(d.next_sub_counter, 4);
}

#[test]
fn dispatch_reaches_exact_and_wildcard_subscriptions() {
    let mut d = DccfEngine::new("dccf-1");
    let exact = d.subscribe("c1", "smf", scope("SliceLoadLevel", Some("s1")), callback("u1")).unwrap();
    let any = d.subscribe("c2", "smf", scope("SliceLoadLevel", None), callback("u2")).unwrap();
    let ts = d.dispatch_targets("SMF", "SliceLoadLevel", Some("s1"));
    let ids: Vec<&str> = ts.iter().map(|t| t.sub_id.as_str()).collect();
    assert_eq!(ids, vec![exact.as_str(), any.as_str()]);
    assert_eq!(ts[0].consumer_id, "c1");
    assert_eq!(ts[1].target, callback("u2"));
    // Without a target the wildcard key is looked at twice.
    let ts = d.dispatch_targets("smf", "SliceLoadLevel", None);
    assert_eq!(ts.len(), 2);
    assert_eq!(ts[0].sub_id, any);
    assert_eq!(ts[1].sub_id, any);
    assert!(d.dispatch_targets("upf", "SliceLoadLevel", Some("s1")).is_empty());
}

#[test]
fn unsubscribe_tears_down_orphan_collectors() {
    let mut d = DccfEngine::new("dccf-1");
    let a = d.subscribe("c1", "amf", scope("NfLoad", None), callback("u1")).unwrap();
    let b = d.subscribe("c2", "amf", scope("NfLoad", None), callback("u2")).unwrap();
    assert_eq!(d.unsubscribe(&a), Ok(()));
    assert_eq!(d.active_source_collectors_count(), 1);
    assert_eq!(d.unsubscribe(&a), Err(DccfError::SubscriptionNotFound));
    assert_eq!(d.unsubscribe(&b), Ok(()));
    assert_eq!(d.active_source_collectors_count(), 0);
    assert!(d.dispatch_targets("amf", "NfLoad", None).is_empty());
}
