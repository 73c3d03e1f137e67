//! What the list and fetch commands print: the fields of accounts, balances
//! and transactions as table cells or as pipe-separated lines.

use vstd::prelude::*;
use vstd::string::*;
use vstd::utf8::encode_utf8;
use crate::text::{join_spec, join_texts};

verus! {

/// How records are printed.
#[derive(Clone, Copy, Debug, PartialEq, Eq, Structural)]
pub enum OutputFormat {
    /// A table with a header row.
    Table,
    /// One JSON document per line.
    Jsonl,
    /// One line per record, its fields separated by ` | `.
    Lines,
}

/// The fields of an account that are printed.
pub struct AccountView {
    pub name: Option<String>,
    pub details: Option<String>,
    pub iban: Option<String>,
    pub currency: String,
    pub product: Option<String>,
}

/// The fields of a balance that are printed.
pub struct BalanceView {
    pub balance_type: String,
    pub amount: String,
    pub currency: String,
    pub reference_date: Option<String>,
}

/// The fields of a transaction that are printed.
pub struct TransactionView {
    pub booking_date: Option<String>,
    pub amount: String,
    pub currency: String,
    pub credit_debit_indicator: String,
    pub remittance_information: Option<Vec<String>>,
    pub debtor_name: Option<String>,
    pub creditor_name: Option<String>,
}

/// The number of bytes of the UTF-8 encoding of `s`.
pub open spec fn byte_len(s: Seq<char>) -> nat {
    encode_utf8(s).len()
}

/// The words of `s` between the spaces, as `str::split(' ')` yields them:
/// empty words where spaces meet or stand at either end, and one empty word
/// for an empty text.
pub open spec fn split_words(s: Seq<char>) -> Seq<Seq<char>>
    decreases s.len(),
{
    if s.len() == 0 {
        seq![Seq::<char>::empty()]
    } else {
        let before = split_words(s.drop_last());
        if s.last() == ' ' {
            before.push(Seq::<char>::empty())
        } else {
            before.update(before.len() - 1, before.last().push(s.last()))
        }
    }
}

/// One word added to a wrapped text whose last line holds `state.1` bytes:
/// the word goes on a new line when the line already holds something and
/// the word and a space would make it longer than `max_width`; else it is
/// joined to the line by a space when the line holds something.
pub open spec fn wrap_step(state: (Seq<char>, nat), word: Seq<char>, max_width: nat) -> (Seq<char>, nat) {
    let (text, line) = state;
    let (text1, line1) = if line > 0 && line + byte_len(word) + 1 > max_width {
        (text.push('\n'), 0nat)
    } else {
        (text, line)
    };
    let (text2, line2) = if line1 > 0 {
        (text1.push(' '), line1 + 1)
    } else {
        (text1, line1)
    };
    (text2 + word, line2 + byte_len(word))
}

/// The wrapped text of `words` and the byte length of its last line.
pub open spec fn wrap_words(words: Seq<Seq<char>>, max_width: nat) -> (Seq<char>, nat)
    decreases words.len(),
{
    if words.len() == 0 {
        (Seq::<char>::empty(), 0nat)
    } else {
        wrap_step(wrap_words(words.drop_last(), max_width), words.last(), max_width)
    }
}

/// `text` wrapped to lines of at most `max_width` bytes where its words allow.
pub open spec fn wrap_spec(text: Seq<char>, max_width: nat) -> Seq<char> {
    wrap_words(split_words(text), max_width).0
}

fn wrap_push(res: &mut String, line_len: &mut usize, word: &str, max_width: usize)
    ensures
        (final(res)@, *final(line_len) as nat) == wrap_step((old(res)@, *old(line_len) as nat), word@, max_width as nat),
{
    let wl = word.as_bytes().len();
    let over = *line_len > 0 && (wl >= max_width || *line_len >= max_width - wl);
    if over {
        res.append("\n");
        *line_len = 0;
    }
    if *line_len > 0 {
        res.append(" ");
        *line_len = *line_len + 1;
    }
    res.append(word);
    proof {
        reveal_strlit("\n");
        reveal_strlit(" ");
    }
    *line_len = *line_len + wl;
}

/// Breaks `text` into lines of at most `max_width` bytes, at spaces: a word
/// that does not fit on the current line starts a new one.
pub fn wrap_text(text: &str, max_width: usize) -> (res: String)
    ensures
        res@ == wrap_spec(text@, max_width as nat),
{
    let n = text.unicode_len();
    let mut res = String::new();
    let mut line_len: usize = 0;
    let mut start: usize = 0;
    let mut i: usize = 0;
    let ghost mut done: Seq<Seq<char>> = Seq::empty();
    proof {
        assert(text@.take(0) =~= Seq::<char>::empty());
        assert(text@.subrange(0, 0) =~= Seq::<char>::empty());
        assert(split_words(text@.take(0)) =~= done + seq![text@.subrange(0, 0)]);
    }
    while i < n
        invariant
            n == text@.len(),
            start <= i <= n,
            split_words(text@.take(i as int)) == done + seq![text@.subrange(start as int, i as int)],
            (res@, line_len as nat) == wrap_words(done, max_width as nat),
        decreases n - i,
    {
        if text.get_char(i) == ' ' {
            let word = text.substring_char(start, i);
            let ghost w = word@;
            wrap_push(&mut res, &mut line_len, word, max_width);
            proof {
                assert(done.push(w).drop_last() =~= done);
                let t1 = text@.take(i + 1);
                assert(t1.drop_last() =~= text@.take(i as int));
                assert(t1.last() == ' ');
                assert(text@.subrange(i + 1, i + 1) =~= Seq::<char>::empty());
                assert(split_words(t1) =~= done.push(w) + seq![text@.subrange(i + 1, i + 1)]);
                done = done.push(w);
            }
            i = i + 1;
            start = i;
        } else {
            proof {
                let t1 = text@.take(i + 1);
                assert(t1.drop_last() =~= text@.take(i as int));
                assert(t1.last() == text@[i as int]);
                let before = split_words(text@.take(i as int));
                assert(before.last() == text@.subrange(start as int, i as int));
                assert(text@.subrange(start as int, i + 1) =~= text@.subrange(start as int, i as int).push(
                    text@[i as int],
                ));
                assert(split_words(t1) =~= done + seq![text@.subrange(start as int, i + 1)]);
            }
            i = i + 1;
        }
    }
    let word = text.substring_char(start, n);
    let ghost w = word@;
    wrap_push(&mut res, &mut line_len, word, max_width);
    proof {
        assert(done.push(w).drop_last() =~= done);
        assert(text@.take(n as int) =~= text@);
        assert(split_words(text@) =~= done.push(w));
    }
    res
}

/// `s` with each line break read as a space.
pub open spec fn breaks_as_spaces(s: Seq<char>) -> Seq<char> {
    s.map_values(|c: char| if c == '\n' { ' ' } else { c })
}

proof fn lemma_breaks_as_spaces_add(a: Seq<char>, b: Seq<char>)
    ensures
        breaks_as_spaces(a + b) == breaks_as_spaces(a) + breaks_as_spaces(b),
{
    assert(breaks_as_spaces(a + b) =~= breaks_as_spaces(a) + breaks_as_spaces(b));
}

proof fn lemma_encode_nonempty(s: Seq<char>)
    requires
        s.len() > 0,
    ensures
        byte_len(s) > 0,
{
    let c = s[0] as u32;
    assert(encode_utf8(s) == vstd::utf8::encode_scalar(c) + encode_utf8(s.drop_first()));
    assert(vstd::utf8::encode_scalar(c).len() > 0);
}

proof fn lemma_join_push(parts: Seq<Seq<char>>, sep: Seq<char>, c: char)
    requires
        parts.len() > 0,
    ensures
        join_spec(parts.update(parts.len() - 1, parts.last().push(c)), sep) == join_spec(parts, sep).push(c),
{
    let p2 = parts.update(parts.len() - 1, parts.last().push(c));
    if parts.len() == 1 {
    } else {
        assert(p2.drop_last() =~= parts.drop_last());
        assert(p2.last() == parts.last().push(c));
        assert(join_spec(p2, sep) == join_spec(parts.drop_last(), sep) + sep + parts.last().push(c));
        assert(join_spec(parts.drop_last(), sep) + sep + parts.last().push(c) =~= (join_spec(
            parts.drop_last(),
            sep,
        ) + sep + parts.last()).push(c));
    }
}

/// Joining the words of a text with spaces gives the text back.
proof fn lemma_split_join(s: Seq<char>)
    ensures
        join_spec(split_words(s), " "@) == s,
        split_words(s).len() > 0,
    decreases s.len(),
{
    reveal_strlit(" ");
    if s.len() == 0 {
        assert(split_words(s) =~= seq![Seq::<char>::empty()]);
        assert(join_spec(split_words(s), " "@) =~= s);
    } else {
        let t = s.drop_last();
        lemma_split_join(t);
        let before = split_words(t);
        if s.last() == ' ' {
            let after = before.push(Seq::<char>::empty());
            assert(after.drop_last() =~= before);
            assert(join_spec(after, " "@) =~= t + " "@ + Seq::<char>::empty());
            assert(t + " "@ + Seq::<char>::empty() =~= s);
        } else {
            lemma_join_push(before, " "@, s.last());
            assert(t.push(s.last()) =~= s);
        }
    }
}

/// When all words are nonempty, the wrapped words read with breaks as spaces
/// are the words joined by spaces, and the last line holds something.
proof fn lemma_wrap_words_join(words: Seq<Seq<char>>, max_width: nat)
    requires
        forall|i: int| 0 <= i < words.len() ==> (#[trigger] words[i]).len() > 0,
    ensures
        breaks_as_spaces(wrap_words(words, max_width).0) == breaks_as_spaces(join_spec(words, " "@)),
        words.len() > 0 ==> wrap_words(words, max_width).1 > 0,
    decreases words.len(),
{
    reveal_strlit(" ");
    if words.len() > 0 {
        let prev = words.drop_last();
        let w = words.last();
        assert forall|i: int| 0 <= i < prev.len() implies (#[trigger] prev[i]).len() > 0 by {
            assert(prev[i] == words[i]);
        }
        lemma_wrap_words_join(prev, max_width);
        lemma_encode_nonempty(w);
        let (text, line) = wrap_words(prev, max_width);
        lemma_breaks_as_spaces_add(text, seq![' ']);
        lemma_breaks_as_spaces_add(text, seq!['\n']);
        if prev.len() == 0 {
            assert(text =~= Seq::<char>::empty());
            assert(wrap_words(words, max_width).0 =~= w);
        } else {
            let joined = join_spec(prev, " "@);
            assert(join_spec(words, " "@) == joined + " "@ + w);
            lemma_breaks_as_spaces_add(joined + " "@, w);
            lemma_breaks_as_spaces_add(joined, " "@);
            assert(breaks_as_spaces(" "@) =~= seq![' ']);
            assert(breaks_as_spaces(seq![' ']) =~= seq![' ']);
            assert(breaks_as_spaces(seq!['\n']) =~= seq![' ']);
            if line + byte_len(w) + 1 > max_width {
                assert(wrap_words(words, max_width).0 == text.push('\n') + w);
                assert(text.push('\n') =~= text + seq!['\n']);
                lemma_breaks_as_spaces_add(text.push('\n'), w);
            } else {
                assert(wrap_words(words, max_width).0 == text.push(' ') + w);
                assert(text.push(' ') =~= text + seq![' ']);
                lemma_breaks_as_spaces_add(text.push(' '), w);
            }
        }
    }
}

/// Wrapping loses no text: read with line breaks as spaces, the wrapped text
/// is the text, when it has no empty word (it neither starts nor ends with a
/// space and has no two spaces in a row).
pub proof fn lemma_wrap_keeps_text(text: Seq<char>, max_width: nat)
    requires
        forall|i: int| 0 <= i < split_words(text).len() ==> (#[trigger] split_words(text)[i]).len() > 0,
    ensures
        breaks_as_spaces(wrap_spec(text, max_width)) == breaks_as_spaces(text),
{
    lemma_split_join(text);
    lemma_wrap_words_join(split_words(text), max_width);
}

/// The remittance lines of a transaction joined by `. `, or nothing.
pub open spec fn remittance_spec(info: Option<Seq<String>>) -> Seq<char> {
    match info {
        Some(v) => join_spec(v.map_values(|s: String| s@), ". "@),
        None => Seq::<char>::empty(),
    }
}

/// The view of an optional list of texts.
pub open spec fn opt_lines(o: Option<Vec<String>>) -> Option<Seq<String>> {
    match o {
        Some(v) => Some(v@),
        None => None,
    }
}

fn str_refs(v: &Vec<String>) -> (res: Vec<&str>)
    ensures
        res@.map_values(|p: &str| p@) == v@.map_values(|s: String| s@),
{
    let n = v.len();
    let mut out: Vec<&str> = Vec::new();
    let mut i: usize = 0;
    while i < n
        invariant
            n == v@.len(),
            i <= n,
            out@.len() == i,
            forall|k: int| 0 <= k < i ==> (#[trigger] out@[k])@ == v@[k]@,
        decreases n - i,
    {
        out.push(v[i].as_str());
        i = i + 1;
    }
    assert(out@.map_values(|p: &str| p@) =~= v@.map_values(|s: String| s@));
    out
}

/// The description of a transaction: its remittance lines joined by `. `.
pub fn remittance_first(t: &TransactionView) -> (res: String)
    ensures
        res@ == remittance_spec(opt_lines(t.remittance_information)),
{
    match &t.remittance_information {
        Some(v) => {
            let parts = str_refs(v);
            join_texts(&parts, ". ")
        },
        None => String::new(),
    }
}

/// The text of an optional field, or `-`.
pub open spec fn or_dash(o: Option<String>) -> Seq<char> {
    match o {
        Some(s) => s@,
        None => "-"@,
    }
}

/// The text of an optional field, or nothing.
pub open spec fn or_empty(o: Option<String>) -> Seq<char> {
    match o {
        Some(s) => s@,
        None => Seq::<char>::empty(),
    }
}

/// The counterparty of a transaction: the debtor of a credit, the creditor of
/// a debit, `-` when that party has no name or the direction is unknown.
pub open spec fn counterparty_spec(t: TransactionView) -> Seq<char> {
    if t.credit_debit_indicator@ == "CRDT"@ {
        or_dash(t.debtor_name)
    } else if t.credit_debit_indicator@ == "DBIT"@ {
        or_dash(t.creditor_name)
    } else {
        "-"@
    }
}

fn text_or_dash(o: &Option<String>) -> (res: &str)
    ensures
        res@ == or_dash(*o),
{
    match o {
        Some(s) => s.as_str(),
        None => "-",
    }
}

fn text_or_empty(o: &Option<String>) -> (res: &str)
    ensures
        res@ == or_empty(*o),
{
    match o {
        Some(s) => s.as_str(),
        None => {
            proof {
                reveal_strlit("");
            }
            ""
        },
    }
}

/// The counterparty of a transaction.
pub fn debtor_creditor(t: &TransactionView) -> (res: &str)
    ensures
        res@ == counterparty_spec(*t),
{
    if crate::text::str_eq(t.credit_debit_indicator.as_str(), "CRDT") {
        text_or_dash(&t.debtor_name)
    } else if crate::text::str_eq(t.credit_debit_indicator.as_str(), "DBIT") {
        text_or_dash(&t.creditor_name)
    } else {
        "-"
    }
}

/// The sign put before the amount of a stored transaction: `+` for a credit,
/// `-` for a debit, nothing otherwise.
pub open spec fn sign_spec(indicator: Seq<char>) -> Seq<char> {
    if indicator == "CRDT"@ {
        "+"@
    } else if indicator == "DBIT"@ {
        "-"@
    } else {
        Seq::<char>::empty()
    }
}

/// The sign put before the amount of a stored transaction.
pub fn amount_sign(indicator: &str) -> (res: &'static str)
    ensures
        res@ == sign_spec(indicator@),
{
    if crate::text::str_eq(indicator, "CRDT") {
        "+"
    } else if crate::text::str_eq(indicator, "DBIT") {
        "-"
    } else {
        proof {
            reveal_strlit("");
        }
        ""
    }
}

/// The texts of a row of cells.
pub open spec fn cells_of(v: Seq<String>) -> Seq<Seq<char>> {
    v.map_values(|s: String| s@)
}

/// Cells joined by ` | `, as the `--lines` output prints a record.
pub open spec fn line_spec(cells: Seq<Seq<char>>) -> Seq<char> {
    join_spec(cells, " | "@)
}

/// The cells of a record joined by ` | `.
pub fn cells_line(cells: &Vec<String>) -> (res: String)
    ensures
        res@ == line_spec(cells_of(cells@)),
{
    let parts = str_refs(cells);
    join_texts(&parts, " | ")
}

/// The cells of an account: name, description, IBAN, currency, product.
pub open spec fn account_cells_spec(a: AccountView) -> Seq<Seq<char>> {
    seq![or_dash(a.name), or_dash(a.details), or_dash(a.iban), a.currency@, or_dash(a.product)]
}

/// The cells of an account.
pub fn account_cells(a: &AccountView) -> (res: Vec<String>)
    ensures
        cells_of(res@) == account_cells_spec(*a),
{
    let mut v: Vec<String> = Vec::new();
    v.push(text_or_dash(&a.name).to_owned());
    v.push(text_or_dash(&a.details).to_owned());
    v.push(text_or_dash(&a.iban).to_owned());
    v.push(a.currency.clone());
    v.push(text_or_dash(&a.product).to_owned());
    assert(cells_of(v@) =~= account_cells_spec(*a));
    v
}

/// The cells of a stored account: its id, its cells, when it was updated.
pub open spec fn stored_account_cells_spec(id: Seq<char>, a: AccountView, updated_at: Seq<char>) -> Seq<Seq<char>> {
    seq![id] + account_cells_spec(a) + seq![updated_at]
}

/// The cells of a stored account.
pub fn stored_account_cells(id: &str, a: &AccountView, updated_at: &str) -> (res: Vec<String>)
    ensures
        cells_of(res@) == stored_account_cells_spec(id@, *a, updated_at@),
{
    let mut v: Vec<String> = Vec::new();
    v.push(id.to_owned());
    let mut rest = account_cells(a);
    let ghost head = v@;
    let ghost tail = rest@;
    v.append(&mut rest);
    v.push(updated_at.to_owned());
    assert(cells_of(v@) =~= stored_account_cells_spec(id@, *a, updated_at@)) by {
        assert(v@ =~= head + tail + seq![v@.last()]);
    }
    v
}

/// The cells of a balance: type, amount, currency, reference date (or nothing).
pub open spec fn balance_cells_spec(b: BalanceView) -> Seq<Seq<char>> {
    seq![b.balance_type@, b.amount@, b.currency@, or_empty(b.reference_date)]
}

/// The cells of a balance.
pub fn balance_cells(b: &BalanceView) -> (res: Vec<String>)
    ensures
        cells_of(res@) == balance_cells_spec(*b),
{
    let mut v: Vec<String> = Vec::new();
    v.push(b.balance_type.clone());
    v.push(b.amount.clone());
    v.push(b.currency.clone());
    v.push(text_or_empty(&b.reference_date).to_owned());
    assert(cells_of(v@) =~= balance_cells_spec(*b));
    v
}

/// The cells of a stored balance: its id, its account's id, its cells, when
/// it was stored.
pub open spec fn stored_balance_cells_spec(id: Seq<char>, account_id: Seq<char>, b: BalanceView, inserted_at: Seq<char>) -> Seq<
    Seq<char>,
> {
    seq![id, account_id] + balance_cells_spec(b) + seq![inserted_at]
}

/// The cells of a stored balance.
pub fn stored_balance_cells(id: &str, account_id: &str, b: &BalanceView, inserted_at: &str) -> (res: Vec<String>)
    ensures
        cells_of(res@) == stored_balance_cells_spec(id@, account_id@, *b, inserted_at@),
{
    let mut v: Vec<String> = Vec::new();
    v.push(id.to_owned());
    v.push(account_id.to_owned());
    let mut rest = balance_cells(b);
    let ghost head = v@;
    let ghost tail = rest@;
    v.append(&mut rest);
    v.push(inserted_at.to_owned());
    assert(cells_of(v@) =~= stored_balance_cells_spec(id@, account_id@, *b, inserted_at@)) by {
        assert(v@ =~= head + tail + seq![v@.last()]);
    }
    v
}

/// The width that a table wraps transaction descriptions to.
pub const DESCRIPTION_WIDTH: usize = 60;

/// The description of a transaction as a cell: wrapped in a table, as it is
/// in a line.
pub open spec fn description_spec(t: TransactionView, table: bool) -> Seq<char> {
    if table {
        wrap_spec(remittance_spec(opt_lines(t.remittance_information)), DESCRIPTION_WIDTH as nat)
    } else {
        remittance_spec(opt_lines(t.remittance_information))
    }
}

fn description(t: &TransactionView, table: bool) -> (res: String)
    ensures
        res@ == description_spec(*t, table),
{
    let text = remittance_first(t);
    if table {
        wrap_text(text.as_str(), DESCRIPTION_WIDTH)
    } else {
        text
    }
}

/// The cells of a fetched transaction: booking date (or nothing), amount,
/// currency, description, counterparty.
pub open spec fn transaction_cells_spec(t: TransactionView, table: bool) -> Seq<Seq<char>> {
    seq![or_empty(t.booking_date), t.amount@, t.currency@, description_spec(t, table), counterparty_spec(t)]
}

/// The cells of a fetched transaction; `table` wraps the description.
pub fn transaction_cells(t: &TransactionView, table: bool) -> (res: Vec<String>)
    ensures
        cells_of(res@) == transaction_cells_spec(*t, table),
{
    let mut v: Vec<String> = Vec::new();
    v.push(text_or_empty(&t.booking_date).to_owned());
    v.push(t.amount.clone());
    v.push(t.currency.clone());
    v.push(description(t, table));
    v.push(debtor_creditor(t).to_owned());
    assert(cells_of(v@) =~= transaction_cells_spec(*t, table));
    v
}

/// The cells of a stored transaction: its id, its account's id, booking date
/// (or nothing), the signed amount, currency, description, counterparty, when
/// it was updated.
pub open spec fn stored_transaction_cells_spec(
    id: Seq<char>,
    account_id: Seq<char>,
    t: TransactionView,
    updated_at: Seq<char>,
    table: bool,
) -> Seq<Seq<char>> {
    seq![
        id,
        account_id,
        or_empty(t.booking_date),
        sign_spec(t.credit_debit_indicator@) + t.amount@,
        t.currency@,
        description_spec(t, table),
        counterparty_spec(t),
        updated_at,
    ]
}

/// The cells of a stored transaction; `table` wraps the description.
pub fn stored_transaction_cells(
    id: &str,
    account_id: &str,
    t: &TransactionView,
    updated_at: &str,
    table: bool,
) -> (res: Vec<String>)
    ensures
        cells_of(res@) == stored_transaction_cells_spec(id@, account_id@, *t, updated_at@, table),
{
    let mut amount = amount_sign(t.credit_debit_indicator.as_str()).to_owned();
    amount.append(t.amount.as_str());
    let mut v: Vec<String> = Vec::new();
    v.push(id.to_owned());
    v.push(account_id.to_owned());
    v.push(text_or_empty(&t.booking_date).to_owned());
    v.push(amount);
    v.push(t.currency.clone());
    v.push(description(t, table));
    v.push(debtor_creditor(t).to_owned());
    v.push(updated_at.to_owned());
    assert(cells_of(v@) =~= stored_transaction_cells_spec(id@, account_id@, *t, updated_at@, table));
    v
}

/// The header row of a table of fetched accounts.
pub open spec fn account_header_spec() -> Seq<Seq<char>> {
    seq!["Name"@, "Description"@, "IBAN"@, "Currency"@, "Product"@]
}

/// The header row of a table of fetched accounts.
pub fn account_header() -> (res: Vec<String>)
    ensures
        cells_of(res@) == account_header_spec(),
{
    let v: Vec<String> = vec![
        "Name".to_owned(),
        "Description".to_owned(),
        "IBAN".to_owned(),
        "Currency".to_owned(),
        "Product".to_owned(),
    ];
    assert(cells_of(v@) =~= account_header_spec());
    v
}

/// The header row of a table of stored accounts.
pub open spec fn stored_account_header_spec() -> Seq<Seq<char>> {
    seq!["ID"@, "Name"@, "Description"@, "IBAN"@, "Currency"@, "Product"@, "Updated At"@]
}

/// The header row of a table of stored accounts.
pub fn stored_account_header() -> (res: Vec<String>)
    ensures
        cells_of(res@) == stored_account_header_spec(),
{
    let v: Vec<String> = vec![
        "ID".to_owned(),
        "Name".to_owned(),
        "Description".to_owned(),
        "IBAN".to_owned(),
        "Currency".to_owned(),
        "Product".to_owned(),
        "Updated At".to_owned(),
    ];
    assert(cells_of(v@) =~= stored_account_header_spec());
    v
}

/// The header row of a table of fetched balances.
pub open spec fn balance_header_spec() -> Seq<Seq<char>> {
    seq!["Type"@, "Amount"@, "Currency"@, "Reference Date"@]
}

/// The header row of a table of fetched balances.
pub fn balance_header() -> (res: Vec<String>)
    ensures
        cells_of(res@) == balance_header_spec(),
{
    let v: Vec<String> = vec![
        "Type".to_owned(),
        "Amount".to_owned(),
        "Currency".to_owned(),
        "Reference Date".to_owned(),
    ];
    assert(cells_of(v@) =~= balance_header_spec());
    v
}

/// The header row of a table of stored balances.
pub open spec fn stored_balance_header_spec() -> Seq<Seq<char>> {
    seq!["ID"@, "Account ID"@, "Type"@, "Amount"@, "Currency"@, "Reference Date"@, "Inserted At"@]
}

/// The header row of a table of stored balances.
pub fn stored_balance_header() -> (res: Vec<String>)
    ensures
        cells_of(res@) == stored_balance_header_spec(),
{
    let v: Vec<String> = vec![
        "ID".to_owned(),
        "Account ID".to_owned(),
        "Type".to_owned(),
        "Amount".to_owned(),
        "Currency".to_owned(),
        "Reference Date".to_owned(),
        "Inserted At".to_owned(),
    ];
    assert(cells_of(v@) =~= stored_balance_header_spec());
    v
}

/// The header row of a table of fetched transactions.
pub open spec fn transaction_header_spec() -> Seq<Seq<char>> {
    seq!["Booking Date"@, "Amount"@, "Currency"@, "Description"@, "From/To"@]
}

/// The header row of a table of fetched transactions.
pub fn transaction_header() -> (res: Vec<String>)
    ensures
        cells_of(res@) == transaction_header_spec(),
{
    let v: Vec<String> = vec![
        "Booking Date".to_owned(),
        "Amount".to_owned(),
        "Currency".to_owned(),
        "Description".to_owned(),
        "From/To".to_owned(),
    ];
    assert(cells_of(v@) =~= transaction_header_spec());
    v
}

/// The header row of a table of stored transactions.
pub open spec fn stored_transaction_header_spec() -> Seq<Seq<char>> {
    seq![
        "ID"@,
        "Account ID"@,
        "Booking Date"@,
        "Amount"@,
        "Currency"@,
        "Description"@,
        "From/To"@,
        "Updated At"@,
    ]
}

/// The header row of a table of stored transactions.
pub fn stored_transaction_header() -> (res: Vec<String>)
    ensures
        cells_of(res@) == stored_transaction_header_spec(),
{
    let v: Vec<String> = vec![
        "ID".to_owned(),
        "Account ID".to_owned(),
        "Booking Date".to_owned(),
        "Amount".to_owned(),
        "Currency".to_owned(),
        "Description".to_owned(),
        "From/To".to_owned(),
        "Updated At".to_owned(),
    ];
    assert(cells_of(v@) =~= stored_transaction_header_spec());
    v
}

/// The text that `comfy_table` draws for a table in its `UTF8_FULL` preset
/// with the cells `header` on top and one line of cells per row of `rows`
/// (without styling, columns as wide as their content).
pub uninterp spec fn utf8_full_table(header: Seq<Seq<char>>, rows: Seq<Seq<Seq<char>>>) -> Seq<char>;

/// The texts of the rows of a table.
pub open spec fn rows_of(rows: Seq<Vec<String>>) -> Seq<Seq<Seq<char>>> {
    rows.map_values(|r: Vec<String>| cells_of(r@))
}

/// Calls `comfy_table::Table::new`, `load_preset(UTF8_FULL)`, `set_header`,
/// `add_rows` and writes the table with its `Display`; the contract claims
/// that the text is the named table of these cells.
#[verifier::external_body]
pub(crate) fn render_table(header: &Vec<String>, rows: &Vec<Vec<String>>) -> (res: String)
    ensures
        res@ == utf8_full_table(cells_of(header@), rows_of(rows@)),
{
    let mut table = comfy_table::Table::new();
    table.load_preset(comfy_table::presets::UTF8_FULL);
    table.set_header(header.clone());
    table.add_rows(rows.clone());
    table.to_string()
}

/// The table of fetched accounts.
pub fn account_table(items: &Vec<AccountView>) -> (res: String)
    ensures
        res@ == utf8_full_table(account_header_spec(), items@.map_values(|a: AccountView| account_cells_spec(a))),
{
    let mut rows: Vec<Vec<String>> = Vec::new();
    let mut i: usize = 0;
    while i < items.len()
        invariant
            i <= items@.len(),
            rows@.len() == i,
            forall|j: int| 0 <= j < i ==> cells_of(#[trigger] rows@[j]@) == account_cells_spec(items@[j]),
        decreases items@.len() - i,
    {
        rows.push(account_cells(&items[i]));
        i = i + 1;
    }
    let header = account_header();
    assert(rows_of(rows@) =~= items@.map_values(|a: AccountView| account_cells_spec(a)));
    render_table(&header, &rows)
}

/// The table of fetched balances.
pub fn balance_table(items: &Vec<BalanceView>) -> (res: String)
    ensures
        res@ == utf8_full_table(balance_header_spec(), items@.map_values(|b: BalanceView| balance_cells_spec(b))),
{
    let mut rows: Vec<Vec<String>> = Vec::new();
    let mut i: usize = 0;
    while i < items.len()
        invariant
            i <= items@.len(),
            rows@.len() == i,
            forall|j: int| 0 <= j < i ==> cells_of(#[trigger] rows@[j]@) == balance_cells_spec(items@[j]),
        decreases items@.len() - i,
    {
        rows.push(balance_cells(&items[i]));
        i = i + 1;
    }
    let header = balance_header();
    assert(rows_of(rows@) =~= items@.map_values(|b: BalanceView| balance_cells_spec(b)));
    render_table(&header, &rows)
}

/// The table of fetched transactions, descriptions wrapped.
pub fn transaction_table(items: &Vec<TransactionView>) -> (res: String)
    ensures
        res@ == utf8_full_table(transaction_header_spec(), items@.map_values(|t: TransactionView| transaction_cells_spec(t, true))),
{
    let mut rows: Vec<Vec<String>> = Vec::new();
    let mut i: usize = 0;
    while i < items.len()
        invariant
            i <= items@.len(),
            rows@.len() == i,
            forall|j: int| 0 <= j < i ==> cells_of(#[trigger] rows@[j]@) == transaction_cells_spec(items@[j], true),
        decreases items@.len() - i,
    {
        rows.push(transaction_cells(&items[i], true));
        i = i + 1;
    }
    let header = transaction_header();
    assert(rows_of(rows@) =~= items@.map_values(|t: TransactionView| transaction_cells_spec(t, true)));
    render_table(&header, &rows)
}

/// The table of stored accounts, each given as its id, its content and when it was updated.
pub fn stored_account_table(items: &Vec<(String, AccountView, String)>) -> (res: String)
    ensures
        res@ == utf8_full_table(stored_account_header_spec(), items@.map_values(|r: (String, AccountView, String)| stored_account_cells_spec(r.0@, r.1, r.2@))),
{
    let mut rows: Vec<Vec<String>> = Vec::new();
    let mut i: usize = 0;
    while i < items.len()
        invariant
            i <= items@.len(),
            rows@.len() == i,
            forall|j: int| 0 <= j < i ==> cells_of(#[trigger] rows@[j]@) == stored_account_cells_spec(items@[j].0@, items@[j].1, items@[j].2@),
        decreases items@.len() - i,
    {
        rows.push(stored_account_cells(items[i].0.as_str(), &items[i].1, items[i].2.as_str()));
        i = i + 1;
    }
    let header = stored_account_header();
    assert(rows_of(rows@) =~= items@.map_values(|r: (String, AccountView, String)| stored_account_cells_spec(r.0@, r.1, r.2@)));
    render_table(&header, &rows)
}

/// The table of stored balances, each given as its id, its account's id, its content and when it was stored.
pub fn stored_balance_table(items: &Vec<(String, String, BalanceView, String)>) -> (res: String)
    ensures
        res@ == utf8_full_table(stored_balance_header_spec(), items@.map_values(|r: (String, String, BalanceView, String)| stored_balance_cells_spec(r.0@, r.1@, r.2, r.3@))),
{
    let mut rows: Vec<Vec<String>> = Vec::new();
    let mut i: usize = 0;
    while i < items.len()
        invariant
            i <= items@.len(),
            rows@.len() == i,
            forall|j: int| 0 <= j < i ==> cells_of(#[trigger] rows@[j]@) == stored_balance_cells_spec(items@[j].0@, items@[j].1@, items@[j].2, items@[j].3@),
        decreases items@.len() - i,
    {
        rows.push(stored_balance_cells(items[i].0.as_str(), items[i].1.as_str(), &items[i].2, items[i].3.as_str()));
        i = i + 1;
    }
    let header = stored_balance_header();
    assert(rows_of(rows@) =~= items@.map_values(|r: (String, String, BalanceView, String)| stored_balance_cells_spec(r.0@, r.1@, r.2, r.3@)));
    render_table(&header, &rows)
}

/// The table of stored transactions, each given as its id, its account's id, its content and when it was updated, descriptions wrapped.
pub fn stored_transaction_table(items: &Vec<(String, String, TransactionView, String)>) -> (res: String)
    ensures
        res@ == utf8_full_table(stored_transaction_header_spec(), items@.map_values(|r: (String, String, TransactionView, String)| stored_transaction_cells_spec(r.0@, r.1@, r.2, r.3@, true))),
{
    let mut rows: Vec<Vec<String>> = Vec::new();
    let mut i: usize = 0;
    while i < items.len()
        invariant
            i <= items@.len(),
            rows@.len() == i,
            forall|j: int| 0 <= j < i ==> cells_of(#[trigger] rows@[j]@) == stored_transaction_cells_spec(items@[j].0@, items@[j].1@, items@[j].2, items@[j].3@, true),
        decreases items@.len() - i,
    {
        rows.push(stored_transaction_cells(items[i].0.as_str(), items[i].1.as_str(), &items[i].2, items[i].3.as_str(), true));
        i = i + 1;
    }
    let header = stored_transaction_header();
    assert(rows_of(rows@) =~= items@.map_values(|r: (String, String, TransactionView, String)| stored_transaction_cells_spec(r.0@, r.1@, r.2, r.3@, true)));
    render_table(&header, &rows)
}

} // verus!
