use banker::remote::{EnableBankingAccountId, EnableBankingSessionId};
use banker::api::{after_page, fetch_window, first_page, transactions_query, FetchStrategy, FetchWindow, PageStep};
use banker::bank::{bank_table, AspspEntry};
use banker::command_tree::{tree_is_ok, ArgSpec, CommandNode};
use banker::config::{ApplicationConfig, BankConfig, Config};
use banker::ids::ResourceType;
use banker::output::{account_table, stored_transaction_table, AccountView, TransactionView};
use banker::time::{time_frame_at, Span, TimeFrame, TimeFrameArgs, Timestamp};

fn pairs(q: &[(String, String)]) -> Vec<(&str, &str)> {
    q.iter().map(|(k, v)| (k.as_str(), v.as_str())).collect()
}

#[test]
fn transactions_query_writes_the_days() {
    let window = FetchWindow { date_from: Some(19723), date_to: Some(19724), strategy: FetchStrategy::Default };
    let q = transactions_query(&window, None).unwrap();
    assert_eq!(pairs(&q), vec![("strategy", "default"), ("date_from", "2024-01-01"), ("date_to", "2024-01-02")]);
    let q = transactions_query(&window, Some("next".to_string())).unwrap();
    assert_eq!(q.last().unwrap(), &("continuation_key".to_string(), "next".to_string()));
    let longest = fetch_window(None);
    assert_eq!(pairs(&transactions_query(&longest, None).unwrap()), vec![("strategy", "longest")]);
}

#[test]
fn transactions_query_refuses_a_day_out_of_range() {
    let window = FetchWindow { date_from: Some(i64::MAX), date_to: None, strategy: FetchStrategy::Default };
    assert!(transactions_query(&window, None).is_none());
    assert!(matches!(first_page(&window), PageStep::DayOutOfRange));
}

#[test]
fn pages_follow_the_continuation_key() {
    let tf = TimeFrame { from: Timestamp { secs: 1_704_067_200, nanos: 0 }, to: Timestamp { secs: 1_704_153_600, nanos: 0 } };
    let window = fetch_window(Some(tf));
    match first_page(&window) {
        PageStep::Request(q) => assert_eq!(q.len(), 3),
        _ => panic!("expected a request"),
    }
    match after_page(&window, Some("k2".to_string())) {
        PageStep::Request(q) => {
            assert_eq!(q.len(), 4);
            assert_eq!(q[3].1, "k2");
        }
        _ => panic!("expected a request"),
    }
    assert!(matches!(after_page(&window, None), PageStep::Finished));
}

#[test]
fn a_last_window_starts_before_it_ends() {
    let now = Timestamp { secs: 1_700_000_000, nanos: 5 };
    let args = TimeFrameArgs { all: false, from: None, to: None, last: Some(Span { secs: 0, nanos: 10 }) };
    let tf = time_frame_at(Some(args), now).unwrap().unwrap();
    assert_eq!(tf.to, now);
    assert_eq!(tf.from, Timestamp { secs: 1_699_999_999, nanos: 999_999_995 });
    assert!(tf.from.is_before(&tf.to));
}

#[test]
fn bank_table_draws_boxes() {
    let banks = vec![AspspEntry { name: "Bank A".into(), country: "FI".into() }];
    let expected = "┌────────┬─────────┐\n\
                    │ Name   ┆ Country │\n\
                    ╞════════╪═════════╡\n\
                    │ Bank A ┆ FI      │\n\
                    └────────┴─────────┘";
    assert_eq!(bank_table(&banks), expected);
}

#[test]
fn account_table_has_a_line_per_account() {
    let a = AccountView {
        name: Some("Main".into()),
        details: None,
        iban: Some("FI2112345600000785".into()),
        currency: "EUR".into(),
        product: None,
    };
    let text = account_table(&vec![a]);
    let lines: Vec<&str> = text.lines().collect();
    assert_eq!(lines.len(), 5);
    assert!(lines[1].contains("Name") && lines[1].contains("IBAN"));
    assert!(lines[3].contains("Main") && lines[3].contains("FI2112345600000785") && lines[3].contains("EUR"));
}

#[test]
fn stored_transaction_table_signs_amounts() {
    let t = TransactionView {
        booking_date: Some("2025-01-02".into()),
        amount: "12.50".into(),
        currency: "EUR".into(),
        credit_debit_indicator: "DBIT".into(),
        remittance_information: None,
        debtor_name: None,
        creditor_name: Some("Shop".into()),
    };
    let text = stored_transaction_table(&vec![("tx_1".into(), "ac_1".into(), t, "2025-01-03".into())]);
    let lines: Vec<&str> = text.lines().collect();
    assert_eq!(lines.len(), 5);
    assert!(lines[3].contains("-12.50") && lines[3].contains("tx_1") && lines[3].contains("Shop"));
}

fn node(args: Vec<ArgSpec>, subs: Vec<CommandNode>) -> CommandNode {
    CommandNode {
        name: "n".into(),
        about: String::new(),
        aliases: vec![],
        args,
        subcommands: subs,
        hidden: false,
        subcommand_required: false,
    }
}

fn arg(long: Option<&str>, short: Option<char>, takes: bool) -> ArgSpec {
    ArgSpec { id: "x".into(), short, long: long.map(String::from), takes_values: takes, required: false, multiple: false }
}

#[test]
fn trees_with_unshowable_flags_are_refused() {
    assert!(tree_is_ok(&node(vec![arg(Some("all"), None, false), arg(None, None, true)], vec![])));
    let bad_child = node(vec![arg(None, None, false)], vec![]);
    assert!(!tree_is_ok(&node(vec![], vec![bad_child])));
}

#[test]
fn schema_targets_are_plural() {
    assert_eq!(ResourceType::Account.schema_target(), "accounts");
    assert_eq!(ResourceType::Balance.schema_target(), "balances");
    assert_eq!(ResourceType::Transaction.schema_target(), "transactions");
}

#[test]
fn duplicate_config_keys_are_found() {
    let app = |k: &str| (k.to_string(), ApplicationConfig { id: "id".into(), key_file: "k.pem".into() });
    let bank = |k: &str| (k.to_string(), BankConfig { name: "B".into(), country: "FI".into() });
    let mut c = Config {
        db_path: None,
        application: vec![app("a"), app("b")],
        bank: vec![bank("x")],
        api_base_url: "https://api.enablebanking.com".into(),
        redirect_url: None,
    };
    assert!(c.has_unique_keys());
    c.bank.push(bank("x"));
    assert!(!c.has_unique_keys());
}

#[test]
fn uuid_text_matches_the_uuid_crate() {
    let v: u128 = 0x0123_4567_89ab_cdef_fedc_ba98_7654_3210;
    assert_eq!(EnableBankingAccountId(v).to_text(), "01234567-89ab-cdef-fedc-ba9876543210");
    for v in [0u128, 1, u128::MAX, 0xa0b1_c2d3_e4f5_0617_2839_4a5b_6c7d_8e9f] {
        assert_eq!(EnableBankingSessionId(v).to_text(), uuid::Uuid::from_u128(v).to_string());
    }
    assert_eq!(EnableBankingAccountId(0).to_text(), "00000000-0000-0000-0000-000000000000");
}

#[test]
fn answers_are_trimmed_of_unicode_space() {
    assert!(banker::local::answer_confirms(" \u{3000}yes\u{2003}\n"));
    assert!(!banker::local::answer_confirms("y e s"));
}
