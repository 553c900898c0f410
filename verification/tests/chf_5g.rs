use lib::chf_5g::{
    CdrClosingCause, ChargingSessionState, ChfEngine, FinalUnitAction, GrantedQuotaUnit,
    InitialChargingRequest, ReportingReason, SubscriberAccount, TerminationChargingRequest,
    UpdateChargingRequest, UsedQuotaUnit,
};
use lib::net::Snssai;

fn initial(supi: &str, rg: u32, bytes: u64) -> InitialChargingRequest {
    InitialChargingRequest {
        supi: supi.to_string(),
        pdu_session_id: 5,
        s_nssai: Snssai { sst: 1, sd: None },
        rating_group: rg,
        requested_volume_bytes: bytes,
        timestamp_epoch_s: 1000,
    }
}

fn used(bytes: u64) -> UsedQuotaUnit {
    UsedQuotaUnit {
        rating_group: 100,
        total_volume_bytes: bytes,
        uplink_volume_bytes: bytes / 4,
        downlink_volume_bytes: bytes - bytes / 4,
        reporting_reason: ReportingReason::ThresholdReached,
    }
}

#[test]
fn account_available_balance() {
    let mut a = SubscriberAccount::new("imsi-1", 500);
    assert_eq!(a.available_balance(), 500);
    a.reserved_cents = 700;
    assert_eq!(a.available_balance(), 0);
}

#[test]
fn chf_session_lifecycle() {
    let mut chf = ChfEngine::new("chf-01");
    assert_eq!(chf.rating_plans.get(&200).unwrap().cents_per_megabyte, 10);
    assert_eq!(chf.handle_initial_request(&initial("imsi-1", 100, 1)), Err("Subscriber account not found"));
    assert_eq!(chf.handle_initial_request(&initial("imsi-1", 999, 1)), Err("Rating group not found"));

    chf.provision_account("imsi-1", 1000);
    // 20.5 MB at 5 cents/MB -> 21 MB -> 105 cents reserved, 21 MB granted.
    let resp = chf.handle_initial_request(&initial("imsi-1", 100, 20_500_000)).unwrap();
    assert_eq!(resp.charging_session_id, "urn:chf:session:1001");
    assert_eq!(
        resp.granted_quota,
        Some(GrantedQuotaUnit {
            total_volume_bytes: 21_000_000,
            uplink_volume_bytes: 5_250_000,
            downlink_volume_bytes: 15_750_000,
            validity_time_s: 3600,
            quota_threshold_volume_bytes: Some(16_800_000),
        })
    );
    assert_eq!(chf.accounts.get("imsi-1").unwrap().reserved_cents, 105);
    assert_eq!(chf.next_session_counter, 1002);
    let sid = resp.charging_session_id.clone();

    // 10 MB used -> 50 cents debited; 10 MB requested by default -> 50 cents reserved.
    let upd = UpdateChargingRequest {
        charging_session_id: sid.clone(),
        used_quota: used(10_000_000),
        requested_volume_bytes: None,
        timestamp_epoch_s: 1100,
    };
    let r = chf.handle_update_request(&upd).unwrap();
    assert_eq!(r.remaining_balance_cents, 950);
    assert_eq!(r.granted_quota.unwrap().total_volume_bytes, 10_000_000);
    let acct = chf.accounts.get("imsi-1").unwrap();
    assert_eq!((acct.balance_cents, acct.reserved_cents), (950, 50));
    let ctx = chf.active_sessions.get(&sid).unwrap();
    assert_eq!(ctx.total_used_volume_bytes, 10_000_000);
    assert_eq!(ctx.total_debited_cents, 50);
    assert_eq!(ctx.last_update_epoch_s, 1100);

    // Huge usage exhausts the balance: final unit, restricted access.
    let upd2 = UpdateChargingRequest {
        charging_session_id: sid.clone(),
        used_quota: used(500_000_000),
        requested_volume_bytes: Some(1),
        timestamp_epoch_s: 1200,
    };
    let r2 = chf.handle_update_request(&upd2).unwrap();
    assert_eq!(r2.granted_quota, None);
    assert_eq!(r2.remaining_balance_cents, 0);
    assert_eq!(
        r2.final_unit_indication.unwrap().action,
        FinalUnitAction::RestrictAccess { max_bitrate_kbps: 64 }
    );
    assert_eq!(chf.active_sessions.get(&sid).unwrap().state, ChargingSessionState::FinalUnitReached);

    let term = TerminationChargingRequest {
        charging_session_id: sid.clone(),
        final_used_quota: used(0),
        timestamp_epoch_s: 1300,
        closing_cause: CdrClosingCause::NormalRelease,
    };
    let t = chf.handle_termination_request(&term).unwrap();
    assert_eq!(t.generated_cdr_id, "cdr-5gc-5001");
    assert_eq!(t.final_balance_cents, 0);
    let cdr = &chf.generated_cdrs[0];
    assert_eq!(cdr.duration_s, 300);
    assert_eq!(cdr.total_volume_bytes, 510_000_000);
    assert_eq!(cdr.charging_id, 1001);
    assert!(chf.active_sessions.get(&sid).is_none());
    assert_eq!(chf.handle_termination_request(&term), Err("Charging session not found"));
    assert_eq!(
        chf.handle_update_request(&UpdateChargingRequest {
            charging_session_id: "nope".to_string(),
            used_quota: used(0),
            requested_volume_bytes: None,
            timestamp_epoch_s: 0,
        }),
        Err("Charging session not found")
    );
}

#[test]
fn chf_out_of_credit_and_custom_plan() {
    let mut chf = ChfEngine::new("chf-02");
    chf.provision_account("broke", 0);
    let r = chf.handle_initial_request(&initial("broke", 100, 1_000_000)).unwrap();
    assert_eq!(r.granted_quota, None);
    assert_eq!(
        r.final_unit_indication.unwrap().action,
        FinalUnitAction::Redirect { redirect_server_url: "https://selfcare.carrier.com/topup".to_string() }
    );
    assert_eq!(chf.active_sessions.len(), 0);

    chf.set_rating_plan(7, 1000);
    chf.provision_account("rich", 1500);
    // 3 MB at 10.00 per MB = 3000 cents; only 1500 available -> 1 MB granted.
    let r = chf.handle_initial_request(&initial("rich", 7, 3_000_000)).unwrap();
    assert_eq!(r.granted_quota.unwrap().total_volume_bytes, 1_000_000);
    assert_eq!(chf.accounts.get("rich").unwrap().reserved_cents, 1500);
}
