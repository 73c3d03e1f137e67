use banker::output::{
    account_cells, account_header, amount_sign, balance_cells, cells_line, debtor_creditor, remittance_first,
    stored_account_cells, stored_balance_cells, stored_transaction_cells, stored_transaction_header,
    transaction_cells, wrap_text, AccountView, BalanceView, TransactionView,
};

fn tx(indicator: &str, info: Option<Vec<&str>>) -> TransactionView {
    TransactionView {
        booking_date: Some("2025-01-02".into()),
        amount: "12.50".into(),
        currency: "EUR".into(),
        credit_debit_indicator: indicator.into(),
        remittance_information: info.map(|v| v.into_iter().map(String::from).collect()),
        debtor_name: Some("Alice".into()),
        creditor_name: None,
    }
}

#[test]
fn wrap_breaks_at_spaces() {
    assert_eq!(wrap_text("aaa bbb ccc", 7), "aaa bbb\nccc");
    assert_eq!(wrap_text("", 7), "");
    assert_eq!(wrap_text("averyveryverylongword x", 5), "averyveryverylongword\nx");
}

#[test]
fn wrap_counts_bytes() {
    assert_eq!(wrap_text("\u{e9} \u{e9}", 3), "\u{e9}\n\u{e9}");
    assert_eq!(wrap_text("e e", 3), "e e");
}

#[test]
fn wrap_loses_no_text() {
    let text = "pay for the groceries of the week at the corner shop and the bakery next door";
    let wrapped = wrap_text(text, 20);
    assert_eq!(wrapped.replace('\n', " "), text);
    assert!(wrapped.lines().all(|l| l.len() <= 20));
}

#[test]
fn remittance_lines_are_joined() {
    assert_eq!(remittance_first(&tx("CRDT", Some(vec!["a", "b"]))), "a. b");
    assert_eq!(remittance_first(&tx("CRDT", None)), "");
}

#[test]
fn counterparty_by_direction() {
    assert_eq!(debtor_creditor(&tx("CRDT", None)), "Alice");
    assert_eq!(debtor_creditor(&tx("DBIT", None)), "-");
    assert_eq!(debtor_creditor(&tx("OTHER", None)), "-");
    assert_eq!(amount_sign("CRDT"), "+");
    assert_eq!(amount_sign("DBIT"), "-");
    assert_eq!(amount_sign("XYZ"), "");
}

#[test]
fn account_cells_and_line() {
    let a = AccountView {
        name: Some("Main".into()),
        details: None,
        iban: Some("DE00".into()),
        currency: "EUR".into(),
        product: None,
    };
    let cells = account_cells(&a);
    assert_eq!(cells, vec!["Main", "-", "DE00", "EUR", "-"]);
    assert_eq!(cells_line(&cells), "Main | - | DE00 | EUR | -");
    let stored = stored_account_cells("ac_x", &a, "2025-01-01T00:00:00+00:00");
    assert_eq!(cells_line(&stored), "ac_x | Main | - | DE00 | EUR | - | 2025-01-01T00:00:00+00:00");
    assert_eq!(account_header(), vec!["Name", "Description", "IBAN", "Currency", "Product"]);
}

#[test]
fn balance_cells_and_line() {
    let b = BalanceView { balance_type: "CLBD".into(), amount: "10.00".into(), currency: "EUR".into(), reference_date: None };
    assert_eq!(cells_line(&balance_cells(&b)), "CLBD | 10.00 | EUR | ");
    let stored = stored_balance_cells("ba_1", "ac_1", &b, "t");
    assert_eq!(cells_line(&stored), "ba_1 | ac_1 | CLBD | 10.00 | EUR |  | t");
}

#[test]
fn transaction_cells_in_lines_and_tables() {
    let t = tx("DBIT", Some(vec!["rent"]));
    assert_eq!(cells_line(&transaction_cells(&t, false)), "2025-01-02 | 12.50 | EUR | rent | -");
    let stored = stored_transaction_cells("tx_1", "ac_1", &t, "u", false);
    assert_eq!(cells_line(&stored), "tx_1 | ac_1 | 2025-01-02 | -12.50 | EUR | rent | - | u");
    let long = tx("CRDT", Some(vec!["one two three four five six seven eight nine ten eleven twelve thirteen"]));
    let table = stored_transaction_cells("tx_2", "ac_1", &long, "u", true);
    assert_eq!(table[3], "+12.50");
    assert!(table[5].contains('\n'));
    assert_eq!(stored_transaction_header().len(), 8);
}
