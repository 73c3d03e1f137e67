use banker::auth::{authorize_prompt, logged_out, remote_status_line, status_lines, RemoteStatus};
use banker::local::MetadataNotice;
use banker::remote::{read_uuid, EnableBankingAccountId, EnableBankingSessionId};
use banker::report::progress_message;
use banker::session::{stale_ids, RemoteSessionCheck, Session, SessionAccessLevel, Sessions};
use banker::time::{time_frame_from_args, Timestamp};

fn session(id: u128, bank: &str, app: &str, valid_until: i64) -> Session {
    Session {
        session_id: EnableBankingSessionId(id),
        app_id: app.into(),
        aspsp_name: bank.into(),
        aspsp_country: "DE".into(),
        accounts: vec![EnableBankingAccountId(id * 10)],
        valid_until: Timestamp { secs: valid_until, nanos: 0 },
        created_at: Timestamp { secs: 1_000, nanos: 0 },
    }
}

#[test]
fn pruning_removes_only_stale_sessions_of_the_application() {
    let mut s = Sessions::new();
    s.add(session(1, "A", "app", 5_000));
    s.add(session(2, "B", "app", 50_000));
    s.add(session(3, "C", "app", 50_000));
    s.add(session(4, "D", "other", 100));
    s.add(session(5, "E", "app", 50_000));
    let now = Timestamp { secs: 10_000, nanos: 0 };
    let steps = s.prune_plan(&"app".to_string(), now);
    assert_eq!(steps.len(), 4);
    assert!(steps[0].expired);
    assert!(!steps[1].expired);
    let checks = vec![
        RemoteSessionCheck::Failed,
        RemoteSessionCheck::Authorized,
        RemoteSessionCheck::NotAuthorized,
        RemoteSessionCheck::Failed,
    ];
    let stale = stale_ids(&steps, &checks);
    assert_eq!(stale, vec![EnableBankingSessionId(1), EnableBankingSessionId(3)]);
    assert!(s.remove_all(&stale));
    let kept: Vec<u128> = s.0.iter().map(|x| x.session_id.0).collect();
    assert_eq!(kept, vec![2, 4, 5]);
}

#[test]
fn a_new_login_replaces_the_session_of_its_bank_and_app() {
    let mut s = Sessions::new();
    s.add(session(1, "A", "app", 5_000));
    s.add(session(2, "B", "app", 5_000));
    s.add(session(3, "A", "other", 5_000));
    s.replace_for_bank_and_app(session(9, "A", "app", 9_000));
    let kept: Vec<u128> = s.0.iter().map(|x| x.session_id.0).collect();
    assert_eq!(kept, vec![2, 3, 9]);
    s.replace_for_bank_and_app(session(10, "Z", "app", 9_000));
    assert_eq!(s.0.len(), 4);
}

#[test]
fn lookups_by_bank_and_account() {
    let mut s = Sessions::new();
    s.add(session(1, "A", "app", 5_000));
    s.add(session(2, "A", "other", 5_000));
    assert_eq!(s.find_by_bank(&"A".into(), &"DE".into()).unwrap().session_id.0, 1);
    assert_eq!(s.find_by_bank_and_app(&"A".into(), &"DE".into(), &"other".into()).unwrap().session_id.0, 2);
    assert_eq!(s.find_by_account_id(&EnableBankingAccountId(20)).unwrap().session_id.0, 2);
    assert!(s.find_by_account_id(&EnableBankingAccountId(7)).is_none());
    s.remove(&EnableBankingSessionId(1));
    assert_eq!(s.0.len(), 1);
}

#[test]
fn expiry_and_access_level() {
    let x = session(1, "A", "app", 5_000);
    assert!(!x.is_expired_at(Timestamp { secs: 4_999, nanos: 0 }));
    assert!(x.is_expired_at(Timestamp { secs: 5_000, nanos: 0 }));
    assert_eq!(x.access_level_at(Timestamp { secs: 1_000 + 3_599, nanos: 0 }), SessionAccessLevel::Extended);
    assert_eq!(x.access_level_at(Timestamp { secs: 1_000 + 3_600, nanos: 0 }), SessionAccessLevel::Regular);
    assert_eq!(x.access_level(), SessionAccessLevel::Regular);
    assert!(x.is_expired());
}

#[test]
fn status_texts() {
    let x = session(0x67e55044_10b1_426f_9247_bb680e5fe0c8, "Bank", "app-1", 0);
    let lines = status_lines(&x);
    assert_eq!(lines[0], "Bank:         Bank (DE)");
    assert_eq!(lines[1], "App ID:       app-1");
    assert_eq!(lines[2], "Session ID:   67e55044-10b1-426f-9247-bb680e5fe0c8");
    assert_eq!(lines[3], "Accounts:     1");
    assert_eq!(lines[4], "Valid until:  1970-01-01 00:00:00 UTC");
    assert_eq!(lines[5], "Created:      1970-01-01 00:16:40 UTC");
    assert_eq!(remote_status_line(&RemoteStatus::Known(2)), "Remote status: OK (2 account(s))");
    assert_eq!(remote_status_line(&RemoteStatus::CheckFailed("x".into())), "Remote status check failed: x");
    assert_eq!(remote_status_line(&RemoteStatus::ClientFailed("y".into())), "Client init error: y");
    assert_eq!(
        remote_status_line(&RemoteStatus::NoApplication("a".into())),
        "  (application not found in config for app_id a)"
    );
    assert_eq!(authorize_prompt("Bank", "DE"), "Open this URL in your browser to authorize access to Bank (DE):\n");
    assert_eq!(logged_out("Bank", "DE"), "Logged out and removed the session for Bank (DE).");
}

#[test]
fn identifiers_of_the_api() {
    let id = EnableBankingSessionId::parse("67e55044-10b1-426f-9247-bb680e5fe0c8").unwrap();
    assert_eq!(id.to_text(), "67e55044-10b1-426f-9247-bb680e5fe0c8");
    let err = EnableBankingAccountId::parse("nope").unwrap_err();
    assert!(err.starts_with("invalid account id: "));
    assert!(read_uuid("session", "xyz").unwrap_err().starts_with("invalid session id: "));
}

#[test]
fn small_texts() {
    assert_eq!(progress_message("Bank", "DE", 0, 3), "Bank (DE) \u{b7} Processing account 1/3...");
    assert_eq!(MetadataNotice::SchemaSaved.text(), "Metadata schema saved successfully.");
    assert_eq!(MetadataNotice::NoMetadata.text(), "No metadata found.");
    assert_eq!(time_frame_from_args(None).unwrap(), None);
}
