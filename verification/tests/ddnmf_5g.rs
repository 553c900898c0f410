use lib::ddnmf_5g::{DdnmfEngine, DdnmfError, ProSeAppCode};

#[test]
fn code_text_drops_plmn_dashes() {
    let pac = ProSeAppCode {
        plmn_id: "208-95".to_string(),
        app_prefix: "CHAT".to_string(),
        ephemeral_token: "00000000000000ff".to_string(),
    };
    assert_eq!(pac.to_hex_string(), "PAC-20895-CHAT-00000000000000ff");
}

#[test]
fn announce_requires_permission() {
    let mut d = DdnmfEngine::new("ddnmf-1", "208-95");
    assert_eq!(d.authorize_announce("supi-1", "chat.example", 60, 1000), Err(DdnmfError::UnauthorizedAppId));
    assert_eq!(d.authorize_monitor("supi-2", "chat.example", 60, 1000), Err(DdnmfError::UnauthorizedAppId));
    assert_eq!(d.next_token_counter, 1);
}

#[test]
fn announce_monitor_match_and_revoke() {
    let mut d = DdnmfEngine::new("ddnmf-1", "208-95");
    d.grant_permission("supi-1", "chat.example");
    d.grant_permission("supi-2", "other");
    d.grant_permission("supi-2", "chat.example");
    let pac = d.authorize_announce("supi-1", "chat.example", 100, 1000).unwrap();
    assert_eq!(pac.plmn_id, "208-95");
    assert_eq!(pac.app_prefix, "CHAT");
    assert_eq!(pac.ephemeral_token, "0000000000000001");
    assert_eq!(d.next_token_counter, 2);
    let code = pac.to_hex_string();
    assert_eq!(code, "PAC-20895-CHAT-0000000000000001");
    // Not yet a monitor.
    assert_eq!(d.match_report("supi-2", &code, 1010), Err(DdnmfError::UnauthorizedMonitor));
    assert_eq!(d.authorize_monitor("supi-2", "chat.example", 50, 1000), Ok(()));
    let m = d.match_report("supi-2", &code, 1010).unwrap();
    assert_eq!(m.prose_app_id, "chat.example");
    assert_eq!(m.announcing_supi, "supi-1");
    assert_eq!(m.validity_time_remaining_s, 90);
    // The monitor expires first.
    assert_eq!(d.match_report("supi-2", &code, 1050), Err(DdnmfError::UnauthorizedMonitor));
    // Then the code.
    assert_eq!(d.match_report("supi-2", &code, 1100), Err(DdnmfError::ProSeCodeExpired));
    assert_eq!(d.match_report("supi-2", "PAC-nope", 1010), Err(DdnmfError::ProSeCodeNotFound));
    assert_eq!(d.revoke_announcement(&code), Ok(()));
    assert_eq!(d.revoke_announcement(&code), Err(DdnmfError::RevocationFailed));
    assert_eq!(d.match_report("supi-2", &code, 1010), Err(DdnmfError::ProSeCodeNotFound));
}

#[test]
fn prefix_without_dot_and_token_counts_up() {
    let mut d = DdnmfEngine::new("ddnmf-1", "001-01");
    d.grant_permission("s", "beacon");
    let a = d.authorize_announce("s", "beacon", 10, 0).unwrap();
    let b = d.authorize_announce("s", "beacon", 10, 0).unwrap();
    assert_eq!(a.app_prefix, "BEACON");
    assert_eq!(b.ephemeral_token, "0000000000000002");
    assert_eq!(d.active_announcements.len(), 2);
}
