use banker::auth::{
    app_jwt_claims, code_from_query, extract_code_from_url, first_redirect_url, logout_session, session_accounts,
    valid_until, CallbackError,
};
use banker::remote::{EnableBankingAccountId, EnableBankingSessionId};
use banker::session::{Session, Sessions};
use banker::time::Timestamp;

#[test]
fn code_is_read_from_the_redirect() {
    let url = "https://example.com/cb?code=abc123&state=s1";
    assert_eq!(extract_code_from_url(url, "s1").unwrap(), "abc123");
}

#[test]
fn redirect_errors() {
    assert_eq!(extract_code_from_url("not a url", "s1").unwrap_err(), CallbackError::Unparsable);
    assert_eq!(
        extract_code_from_url("https://example.com/cb?code=abc&state=other", "s1").unwrap_err(),
        CallbackError::StateMismatch
    );
    assert_eq!(extract_code_from_url("https://example.com/cb?code=abc", "s1").unwrap_err(), CallbackError::Missing);
    assert_eq!(CallbackError::Unparsable.message(), "could not parse the provided URL");
    assert_eq!(CallbackError::StateMismatch.message(), "state mismatch in callback URL");
    assert_eq!(CallbackError::Missing.message(), "no code/state found in the given URL");
}

#[test]
fn query_values_are_decoded_and_the_last_wins() {
    let url = "https://example.com/cb?code=first&state=s%201&code=second";
    assert_eq!(extract_code_from_url(url, "s 1").unwrap(), "second");
    let pairs = vec![("state".to_string(), "s".to_string()), ("code".to_string(), "c".to_string())];
    assert_eq!(code_from_query(&pairs, "s").unwrap(), "c");
}

#[test]
fn redirect_url_falls_back_to_the_first_registered() {
    assert_eq!(first_redirect_url(&vec!["https://a".into(), "https://b".into()]).unwrap(), "https://a");
    assert_eq!(
        first_redirect_url(&vec![]).unwrap_err(),
        "no redirect_url configured and the application has none registered"
    );
}

#[test]
fn jwt_claims_last_an_hour() {
    let c = app_jwt_claims(1_700_000_000);
    assert_eq!(c.iss, "enablebanking.com");
    assert_eq!(c.aud, "api.enablebanking.com");
    assert_eq!(c.iat, 1_700_000_000);
    assert_eq!(c.exp, 1_700_003_600);
}

#[test]
fn session_validity_in_days() {
    let now = Timestamp { secs: 1_700_000_000, nanos: 5 };
    let t = valid_until(now, 90).unwrap();
    assert_eq!(t, Timestamp { secs: 1_700_000_000 + 90 * 86400, nanos: 5 });
    assert!(valid_until(now, i64::MAX).is_none());
}

#[test]
fn session_account_uids() {
    let ok = vec![Some("67e55044-10b1-426f-9247-bb680e5fe0c8".to_string())];
    let ids = session_accounts(&ok).unwrap();
    assert_eq!(ids.len(), 1);
    assert_eq!(ids[0].to_text(), "67e55044-10b1-426f-9247-bb680e5fe0c8");
    let missing = vec![Some("67e55044-10b1-426f-9247-bb680e5fe0c8".to_string()), None];
    assert_eq!(session_accounts(&missing).unwrap_err(), "authorization returned an account without a UID");
    let bad = vec![Some("nope".to_string())];
    assert!(session_accounts(&bad).unwrap_err().starts_with("invalid account id: "));
}

fn session(id: u128, bank: &str, app: &str) -> Session {
    Session {
        session_id: EnableBankingSessionId(id),
        app_id: app.into(),
        aspsp_name: bank.into(),
        aspsp_country: "DE".into(),
        accounts: vec![EnableBankingAccountId(id + 100)],
        valid_until: Timestamp { secs: 2_000_000_000, nanos: 0 },
        created_at: Timestamp { secs: 1_000_000_000, nanos: 0 },
    }
}

#[test]
fn logout_finds_the_session_of_bank_and_app() {
    let mut s = Sessions::new();
    s.add(session(1, "A", "app"));
    s.add(session(2, "B", "app"));
    let found = logout_session(&s, &"B".into(), &"DE".into(), &"app".into()).ok().unwrap();
    assert_eq!(found.session_id.0, 2);
    let err = logout_session(&s, &"C".into(), &"DE".into(), &"app".into()).err().unwrap();
    assert_eq!(err, "no session found for C (DE) with app app");
}

/// The public half of an RSA key pair: no private key to sign with.
const PUBLIC_KEY_ONLY: &str = "-----BEGIN PUBLIC KEY-----\nMIIBIjANBgkqhkiG9w0BAQEFAAOCAQ8AMIIBCgKCAQEAlquz3vE5S/DtO9MAjqkO\neJ+m0BPuayHdh3+/RFjz0AwuNyW3MdA61bGx7R1cAHkdlMzewWBzq2rfWs1gmj9R\nGQSLVgUZPx6XLNErr2RGXWPywUIBKqDB3u1voYwvzDw9io7CzmtCwhSBQgZtL27O\nB+niXSSNKEiadY9hXFaMZ7R6W9voiAUeKyDthxiGjU44Wd6IW8tCgjv/LsTY+jYS\nw+zgSkBl1NbCjThSOdxdM41/75Fm7x5eLNbesWzyy6TE2njVnPSG8VgkCLeK5vx/\nKKY2MsArajmsFA4m1W8V16dMb/KyzDe5+ih6lEU3qHFHhZ061gBUQoAYGmZ9FoxT\nQQIDAQAB\n-----END PUBLIC KEY-----";

#[test]
fn app_token_needs_a_private_key() {
    assert!(banker::auth::app_jwt_at("app-1", b"not a key", 1_700_000_000).is_err());
    assert!(banker::auth::build_app_jwt("app-1", PUBLIC_KEY_ONLY.as_bytes()).is_err());
}
