use banker::ids::{AccountId, BalanceId, ContentHash, IdError, Resource, ResourceType, TransactionId};

#[test]
fn resource_type_names() {
    assert_eq!(ResourceType::Account.name(), "account");
    assert_eq!(ResourceType::Balance.name(), "balance");
    assert_eq!(ResourceType::Transaction.name(), "transaction");
}

#[test]
fn account_id_round_trips_through_its_public_id() {
    let id = AccountId::from_raw(42).unwrap();
    let text = id.encode().unwrap();
    assert!(text.starts_with("ac_"));
    assert!(text.len() >= 3 + 6);
    let back = AccountId::parse(&text).unwrap();
    assert_eq!(back.raw(), 42);
}

#[test]
fn balance_and_transaction_ids_use_their_prefixes() {
    let b = BalanceId::from_raw(7).unwrap().encode().unwrap();
    let t = TransactionId::from_raw(7).unwrap().encode().unwrap();
    assert!(b.starts_with("ba_"));
    assert!(t.starts_with("tx_"));
    assert_eq!(&b[3..], &t[3..]);
}

#[test]
fn non_positive_row_numbers_are_refused() {
    assert_eq!(AccountId::from_raw(0), Err(IdError::NotPositive));
    assert_eq!(AccountId::from_raw(-5), Err(IdError::NotPositive));
    assert_eq!(IdError::NotPositive.message(), "ID must be positive");
}

#[test]
fn id_without_separator_is_invalid_format() {
    assert_eq!(AccountId::parse("acXYZ"), Err(IdError::InvalidFormat));
}

#[test]
fn id_with_wrong_prefix_is_refused() {
    let text = BalanceId::from_raw(3).unwrap().encode().unwrap();
    assert_eq!(AccountId::parse(&text), Err(IdError::InvalidPrefix));
    let err = AccountId::from_str(&text).unwrap_err();
    assert_eq!(err, "Failed to parse AccountId: Invalid ID prefix");
}

#[test]
fn non_canonical_payload_is_refused() {
    // "k" alone decodes to some number, but is shorter than the minimum length.
    let r = TransactionId::parse("tx_k");
    assert!(r.is_err());
}

#[test]
fn resource_from_str_picks_kind_by_prefix() {
    let text = TransactionId::from_raw(99).unwrap().encode().unwrap();
    let r = Resource::from_str(&text).unwrap();
    assert_eq!(r.kind(), ResourceType::Transaction);
    assert_eq!(r.raw(), 99);
}

#[test]
fn resource_from_str_unknown_prefix() {
    let err = Resource::from_str("zz_abc").unwrap_err();
    assert_eq!(err, "Unknown ID prefix 'zz'. Must start with ac_, ba_, or tx_.");
    let err = Resource::from_str("nounderscore").unwrap_err();
    assert_eq!(err, "Unknown ID prefix 'nounderscore'. Must start with ac_, ba_, or tx_.");
}

#[test]
fn resource_from_str_reports_kind_errors() {
    let err = Resource::from_str("ba_").unwrap_err();
    assert!(err.starts_with("Failed to parse BalanceId: "));
}

#[test]
fn content_hash_is_the_xxh3_of_the_bytes() {
    let a = ContentHash::new(b"{\"a\":1}");
    let b = ContentHash::new(b"{\"a\":1}");
    let c = ContentHash::new(b"{\"a\":2}");
    assert_eq!(a, b);
    assert_ne!(a, c);
    assert_eq!(a.0, xxhash_rust::xxh3::xxh3_64(b"{\"a\":1}"));
}

#[test]
fn parse_then_encode_gives_the_same_text() {
    let text = AccountId::from_raw(123456).unwrap().encode().unwrap();
    let id = AccountId::parse(&text).unwrap();
    assert_eq!(id.encode().unwrap(), text);
}
