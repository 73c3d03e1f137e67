use banker::ids::{AccountId, ContentHash, TransactionId};
use banker::sync::{
    chunk_ranges, entry_references, CHUNK_SIZE,
    account_write, lookup_stored, plan_transactions, tally_actions, AccountWrite, FetchedTransaction,
    StoredTransaction, TransactionWrite,
};

fn fetched(r: Option<&str>, h: u64) -> FetchedTransaction {
    FetchedTransaction { entry_reference: r.map(|s| s.to_string()), content_hash: ContentHash(h) }
}

fn stored(r: &str, id: i64, h: u64) -> StoredTransaction {
    StoredTransaction {
        entry_reference: r.to_string(),
        id: TransactionId::from_raw(id).unwrap(),
        content_hash: ContentHash(h),
    }
}

#[test]
fn new_changed_and_unchanged_references() {
    let f = vec![fetched(Some("a"), 1), fetched(Some("b"), 2), fetched(Some("c"), 3)];
    let s = vec![stored("b", 10, 20), stored("c", 11, 3)];
    let plan = plan_transactions(&f, &s, &vec![]);
    assert_eq!(
        plan,
        vec![
            TransactionWrite::Insert,
            TransactionWrite::Update(TransactionId::from_raw(10).unwrap()),
            TransactionWrite::Unchanged,
        ]
    );
    assert_eq!(tally_actions(&plan), (1, 1, 1));
}

#[test]
fn repeated_new_reference_is_inserted_once() {
    let f = vec![fetched(Some("a"), 1), fetched(Some("a"), 2)];
    let plan = plan_transactions(&f, &vec![], &vec![]);
    assert_eq!(plan, vec![TransactionWrite::Insert, TransactionWrite::Unchanged]);
}

#[test]
fn unreferenced_transactions_are_deduplicated_by_hash() {
    let f = vec![fetched(None, 5), fetched(None, 6), fetched(None, 5), fetched(None, 7)];
    let plan = plan_transactions(&f, &vec![], &vec![ContentHash(7)]);
    assert_eq!(
        plan,
        vec![
            TransactionWrite::Insert,
            TransactionWrite::Insert,
            TransactionWrite::Unchanged,
            TransactionWrite::Unchanged,
        ]
    );
    assert_eq!(tally_actions(&plan), (2, 0, 2));
}

#[test]
fn lookup_takes_the_last_row_with_the_reference() {
    let s = vec![stored("x", 1, 100), stored("x", 2, 200)];
    let found = lookup_stored(&s, &"x".to_string()).unwrap();
    assert_eq!(found.0.raw(), 2);
    assert_eq!(found.1, ContentHash(200));
    assert!(lookup_stored(&s, &"y".to_string()).is_none());
}

#[test]
fn agreeing_store_changes_nothing() {
    let f = vec![fetched(Some("a"), 1), fetched(None, 9)];
    let s = vec![stored("a", 4, 1)];
    let plan = plan_transactions(&f, &s, &vec![ContentHash(9)]);
    assert!(plan.iter().all(|w| *w == TransactionWrite::Unchanged));
}

#[test]
fn counts_cover_every_fetched_transaction() {
    let f = vec![fetched(Some("a"), 1), fetched(Some("b"), 2), fetched(None, 3), fetched(None, 3)];
    let s = vec![stored("a", 1, 9)];
    let plan = plan_transactions(&f, &s, &vec![]);
    let (n, u, c) = tally_actions(&plan);
    assert_eq!(n + u + c, f.len());
}

#[test]
fn account_write_decisions() {
    let id = AccountId::from_raw(3).unwrap();
    assert_eq!(account_write(None, ContentHash(1)), AccountWrite::Insert);
    assert_eq!(account_write(Some((id, ContentHash(1))), ContentHash(2)), AccountWrite::Update(id));
    assert_eq!(account_write(Some((id, ContentHash(2))), ContentHash(2)), AccountWrite::Keep(id));
}

#[test]
fn chunks_of_nine_hundred() {
    assert_eq!(chunk_ranges(0, CHUNK_SIZE), vec![]);
    assert_eq!(chunk_ranges(5, CHUNK_SIZE), vec![(0, 5)]);
    assert_eq!(chunk_ranges(900, CHUNK_SIZE), vec![(0, 900)]);
    assert_eq!(chunk_ranges(1801, CHUNK_SIZE), vec![(0, 900), (900, 1800), (1800, 1801)]);
}

#[test]
fn entry_references_skip_unreferenced() {
    let f = vec![fetched(Some("a"), 1), fetched(None, 2), fetched(Some("b"), 3)];
    assert_eq!(entry_references(&f), vec!["a".to_string(), "b".to_string()]);
}

#[test]
fn merging_again_after_the_writes_changes_nothing() {
    let f = vec![fetched(Some("a"), 1), fetched(Some("b"), 2), fetched(None, 3), fetched(None, 3), fetched(Some("c"), 4)];
    let mut s = vec![stored("b", 10, 20), stored("c", 11, 4)];
    let mut unref = vec![];
    let plan = plan_transactions(&f, &s, &unref);
    let mut next_id = 100;
    for (i, w) in plan.iter().enumerate() {
        match w {
            TransactionWrite::Insert => match &f[i].entry_reference {
                Some(r) => {
                    s.push(stored(r, next_id, f[i].content_hash.0));
                    next_id += 1;
                }
                None => unref.push(f[i].content_hash),
            },
            TransactionWrite::Update(id) => {
                for row in s.iter_mut() {
                    if row.id == *id {
                        row.content_hash = f[i].content_hash;
                    }
                }
            }
            TransactionWrite::Unchanged => {}
        }
    }
    let again = plan_transactions(&f, &s, &unref);
    assert!(again.iter().all(|w| *w == TransactionWrite::Unchanged));
}

#[test]
fn second_sync_reports_nothing_written() {
    let f = vec![fetched(Some("a"), 1), fetched(Some("b"), 2)];
    let first = account_write(None, ContentHash(7));
    assert_eq!(first, AccountWrite::Insert);
    let id = AccountId::from_raw(5).unwrap();
    let second = account_write(Some((id, ContentHash(7))), ContentHash(7));
    let s = vec![stored("a", 1, 1), stored("b", 2, 2)];
    let again = plan_transactions(&f, &s, &vec![]);
    let report = banker::report::account_report(Some("Main"), None, second, 3, &again);
    assert!(!report.account_added && !report.account_updated);
    assert_eq!((report.tx_new, report.tx_updated, report.tx_unchanged, report.balances), (0, 0, 2, 3));
}
