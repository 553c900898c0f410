use lib::diameter_s13_geo_fence::{GeoCoord, GeoVerdict, S13GeoFenceEngine, DIAMETER_AUTHORIZATION_REJECTED, DIAMETER_SUCCESS};

#[test]
fn test_geo_fence_lifecycle() {
    let mut engine = S13GeoFenceEngine::new(1000);
    engine.add_allowed_plmn("20801");

    engine.register_tracking_area(10, "20801", 48_850_000, 2_350_000, false);
    engine.register_tracking_area(20, "20801", 51_500_000, -120_000, false);
    engine.register_tracking_area(99, "20801", 45_000_000, 5_000_000, true);

    let v1 = engine.inspect_equipment_location("860011112222333", 10, "20801", 1000);
    assert_eq!(v1, GeoVerdict::LegitimateLocation { tac: 10, plmn_id: "20801".to_string(), result_code: DIAMETER_SUCCESS });

    let v_rest = engine.inspect_equipment_location("860099998888777", 99, "20801", 1000);
    match v_rest {
        GeoVerdict::RestrictedZoneViolation { result_code, .. } => {
            assert_eq!(result_code, DIAMETER_AUTHORIZATION_REJECTED);
        }
        _ => panic!("Expected RestrictedZoneViolation"),
    }

    let v_fraud = engine.inspect_equipment_location("860011112222333", 20, "20801", 1060);
    match v_fraud {
        GeoVerdict::ImpossibleTravelFraud { calculated_speed_kmh, result_code, .. } => {
            assert!(calculated_speed_kmh > 1000);
            assert_eq!(result_code, DIAMETER_AUTHORIZATION_REJECTED);
        }
        _ => panic!("Expected ImpossibleTravelFraud"),
    }

    let v_ok = engine.inspect_equipment_location("860011112222333", 20, "20801", 8200);
    assert_eq!(v_ok, GeoVerdict::LegitimateLocation { tac: 20, plmn_id: "20801".to_string(), result_code: DIAMETER_SUCCESS });
}

#[test]
fn geo_distance_values_and_unauthorized_plmn() {
    let a = GeoCoord::new(0, 0);
    assert_eq!(a.distance_km(&GeoCoord::new(3_000_000, 4_000_000)), 555);
    assert_eq!(a.distance_km(&a), 0);
    assert_eq!(GeoCoord::new(48_850_000, 2_350_000).distance_km(&GeoCoord::new(51_500_000, -120_000)), 401);
    let mut engine = S13GeoFenceEngine::new(10);
    engine.add_allowed_plmn("1");
    engine.add_allowed_plmn("1");
    assert_eq!(engine.allowed_plmns.len(), 1);
    assert_eq!(
        engine.inspect_equipment_location("x", 1, "2", 0),
        GeoVerdict::UnauthorizedPlmn { plmn_id: "2".to_string(), result_code: DIAMETER_AUTHORIZATION_REJECTED }
    );
    engine.register_tracking_area(1, "1", 5, 5, false);
    engine.register_tracking_area(1, "1", 6, 6, true);
    assert_eq!(engine.tracking_areas.len(), 1);
    assert!(engine.tracking_areas[0].is_restricted);
    engine.inspect_equipment_location("x", 2, "1", 0);
    assert_eq!(engine.location_history.len(), 1);
    engine.purge_history();
    assert!(engine.location_history.is_empty());
}
