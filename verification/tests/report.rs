use banker::config::{BankConfig, Config, ApplicationConfig};
use banker::report::{
    account_desc, account_error_line, account_line, account_report, account_status, add_error, add_outcome,
    balance_lines, bank_selected, complete_line, resolve_bank_filters, session_line, session_step, summary,
    totals_line, tx_line, tx_lines, AccountSyncReport, SessionStep,
};
use banker::sync::{AccountWrite, TransactionWrite};
use banker::ids::AccountId;

fn config_with_banks() -> Config {
    Config {
        db_path: None,
        application: vec![("personal".to_string(), ApplicationConfig { id: "app-1".into(), key_file: "k.pem".into() })],
        bank: vec![
            ("mybank".to_string(), BankConfig { name: "My Bank".into(), country: "DE".into() }),
            ("other".to_string(), BankConfig { name: "Other".into(), country: "FI".into() }),
        ],
        api_base_url: "https://api.enablebanking.com".into(),
        redirect_url: None,
    }
}

#[test]
fn new_report_is_empty() {
    let r = AccountSyncReport::new();
    assert_eq!(r.account_name, "");
    assert_eq!(r.accounts + r.errors + r.balances + r.tx_new, 0);
    assert!(!r.account_added && !r.account_updated);
}

#[test]
fn account_report_defaults_and_counts() {
    let writes = vec![TransactionWrite::Insert, TransactionWrite::Unchanged, TransactionWrite::Insert];
    let r = account_report(None, None, AccountWrite::Insert, 2, &writes);
    assert_eq!(r.account_name, "Account");
    assert_eq!(r.account_iban, "");
    assert!(r.account_added);
    assert_eq!((r.tx_new, r.tx_updated, r.tx_unchanged), (2, 0, 1));
    assert_eq!(r.balances, 2);
    assert_eq!(account_status(&r), "added");
    assert_eq!(account_desc(&r), "Account");
}

#[test]
fn account_lines_of_the_summary() {
    let id = AccountId::from_raw(1).unwrap();
    let r = account_report(Some("Main"), Some("DE00"), AccountWrite::Update(id), 0, &vec![]);
    assert_eq!(account_status(&r), "updated");
    assert_eq!(account_line(&r), "    \u{2713} Main (DE00) \u{2014} updated");
    let k = account_report(Some("Main"), None, AccountWrite::Keep(id), 0, &vec![]);
    assert_eq!(account_line(&k), "    \u{2713} Main \u{2014} unchanged");
    assert_eq!(account_error_line("abc", "boom"), "    \u{2717} abc \u{2014} error: boom");
    assert_eq!(session_line("My Bank", "DE", 3), "  My Bank (DE) \u{b7} 3 account(s)");
}

#[test]
fn totals_accumulate_per_account() {
    let id = AccountId::from_raw(1).unwrap();
    let mut total = AccountSyncReport::new();
    let a = account_report(Some("A"), None, AccountWrite::Insert, 2, &vec![TransactionWrite::Insert]);
    let b = account_report(Some("B"), None, AccountWrite::Keep(id), 1, &vec![TransactionWrite::Unchanged]);
    add_outcome(&mut total, &a);
    add_outcome(&mut total, &b);
    add_error(&mut total);
    assert_eq!((total.accounts, total.added, total.updated, total.unchanged), (2, 1, 0, 1));
    assert_eq!((total.balances, total.tx_new, total.tx_unchanged, total.errors), (3, 1, 1, 1));
    assert_eq!(
        totals_line(&total),
        "(2 accounts \u{b7} 1 added, 0 updated, 1 unchanged; 3 balances; 1 new txs, 0 updated, 1 unchanged)"
    );
}

#[test]
fn balance_and_transaction_sections() {
    let a = account_report(Some("A"), Some("X1"), AccountWrite::Insert, 2, &vec![TransactionWrite::Insert]);
    let b = account_report(Some("B"), None, AccountWrite::Insert, 1, &vec![]);
    let outcomes = vec![a, b];
    assert_eq!(
        balance_lines("Bank", "DE", &outcomes),
        vec!["  Bank (DE)".to_string(), "    \u{2713} 3 balance(s) stored".to_string()]
    );
    assert_eq!(
        tx_lines("Bank", "DE", &outcomes),
        vec!["  Bank (DE)".to_string(), "    \u{2713} A (X1) \u{b7} 1 new \u{b7} 0 updated \u{b7} 0 unchanged".to_string()]
    );
    assert_eq!(tx_line(&outcomes[1]), "    \u{2713} B \u{b7} 0 new \u{b7} 0 updated \u{b7} 0 unchanged");
    let none = vec![account_report(Some("C"), None, AccountWrite::Insert, 0, &vec![])];
    assert!(balance_lines("Bank", "DE", &none).is_empty());
    assert!(tx_lines("Bank", "DE", &none).is_empty());
}

#[test]
fn closing_lines() {
    assert_eq!(complete_line(0, "/tmp/data.db"), "\nSync complete. Data stored in /tmp/data.db");
    assert_eq!(complete_line(2, "/tmp/data.db"), "\nSync complete (2 error(s)). Data stored in /tmp/data.db");
}

#[test]
fn summary_skips_empty_sections() {
    let total = AccountSyncReport::new();
    let lines = summary(&vec!["  acc".to_string()], &vec![], &vec!["  tx".to_string()], &total, "db");
    assert_eq!(lines.len(), 6);
    assert!(lines[0].starts_with("\n[1/3] Accounts "));
    assert_eq!(lines[1], "  acc");
    assert!(lines[2].starts_with("\n[3/3] Transactions "));
    assert_eq!(lines[3], "  tx");
    assert_eq!(lines[4], "\nSync complete. Data stored in db");
    assert!(lines[5].starts_with("(0 accounts"));
}

#[test]
fn session_steps_in_order() {
    assert_eq!(session_step(true, false, false), SessionStep::Expired);
    assert_eq!(session_step(false, false, true), SessionStep::NotSelected);
    assert_eq!(session_step(false, true, false), SessionStep::NoApplication);
    assert_eq!(session_step(false, true, true), SessionStep::Sync);
}

#[test]
fn bank_filter_selection() {
    assert!(bank_selected(&None, "Any", "XX"));
    let f = Some(vec![("My Bank".to_string(), "DE".to_string())]);
    assert!(bank_selected(&f, "My Bank", "DE"));
    assert!(!bank_selected(&f, "My Bank", "FI"));
}

#[test]
fn bank_filters_resolve_keys_in_order() {
    let c = config_with_banks();
    let r = resolve_bank_filters(&c, Some(vec!["other".into(), "mybank".into()])).unwrap().unwrap();
    assert_eq!(r, vec![("Other".to_string(), "FI".to_string()), ("My Bank".to_string(), "DE".to_string())]);
    assert!(resolve_bank_filters(&c, None).unwrap().is_none());
    let err = resolve_bank_filters(&c, Some(vec!["mybank".into(), "nope".into()])).err().unwrap();
    assert_eq!(err.message(), "bank \"nope\" not found in config \u{2013} available: mybank, other");
}
