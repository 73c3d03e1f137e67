//! The bookkeeping of a sync run: what each account's sync reports, which
//! sessions are synced, and the summary that the run prints.

use vstd::prelude::*;
use vstd::string::*;
use crate::config::{Config, ConfigError, resolved_bank_index, bank_keys};
use crate::text::join_spec;
use crate::sync::{TransactionWrite, AccountWrite, count_inserts, count_updates, count_unchanged};
use crate::text::{decimal, usize_text};

verus! {

/// What the sync of one account did, or, summed over accounts, of a run.
pub struct AccountSyncReport {
    pub account_name: String,
    pub account_iban: String,
    pub account_added: bool,
    pub account_updated: bool,
    pub accounts: usize,
    pub added: usize,
    pub updated: usize,
    pub unchanged: usize,
    pub errors: usize,
    pub balances: usize,
    pub tx_new: usize,
    pub tx_updated: usize,
    pub tx_unchanged: usize,
}

/// The report's numbers are all zero and its flags false.
pub open spec fn is_blank(r: AccountSyncReport) -> bool {
    &&& r.account_added == false
    &&& r.account_updated == false
    &&& r.accounts == 0
    &&& r.added == 0
    &&& r.updated == 0
    &&& r.unchanged == 0
    &&& r.errors == 0
    &&& r.balances == 0
    &&& r.tx_new == 0
    &&& r.tx_updated == 0
    &&& r.tx_unchanged == 0
}

impl AccountSyncReport {
    /// An empty report: no names, nothing counted.
    pub fn new() -> (res: AccountSyncReport)
        ensures
            res.account_name@ == Seq::<char>::empty(),
            res.account_iban@ == Seq::<char>::empty(),
            is_blank(res),
    {
        AccountSyncReport {
            account_name: String::new(),
            account_iban: String::new(),
            account_added: false,
            account_updated: false,
            accounts: 0,
            added: 0,
            updated: 0,
            unchanged: 0,
            errors: 0,
            balances: 0,
            tx_new: 0,
            tx_updated: 0,
            tx_unchanged: 0,
        }
    }
}

/// The report of one account's sync: the account's name (`Account` when it
/// has none) and IBAN (empty when it has none), what was done with its
/// details, how many balances were stored, and what was done with its
/// transactions.
pub fn account_report(
    name: Option<&str>,
    iban: Option<&str>,
    write: AccountWrite,
    balances: usize,
    writes: &Vec<TransactionWrite>,
) -> (res: AccountSyncReport)
    ensures
        res.account_name@ == (match name {
            Some(n) => n@,
            None => "Account"@,
        }),
        res.account_iban@ == (match iban {
            Some(i) => i@,
            None => Seq::<char>::empty(),
        }),
        res.account_added == (write is Insert),
        res.account_updated == (write is Update),
        res.balances == balances,
        res.tx_new == count_inserts(writes@),
        res.tx_updated == count_updates(writes@),
        res.tx_unchanged == count_unchanged(writes@),
        res.accounts == 0,
        res.added == 0,
        res.updated == 0,
        res.unchanged == 0,
        res.errors == 0,
{
    let (tx_new, tx_updated, tx_unchanged) = crate::sync::tally_actions(writes);
    let account_name = match name {
        Some(n) => n.to_owned(),
        None => {
            proof {
                reveal_strlit("Account");
            }
            "Account".to_owned()
        },
    };
    let account_iban = match iban {
        Some(i) => i.to_owned(),
        None => String::new(),
    };
    let account_added = match write {
        AccountWrite::Insert => true,
        _ => false,
    };
    let account_updated = match write {
        AccountWrite::Update(_) => true,
        _ => false,
    };
    AccountSyncReport {
        account_name,
        account_iban,
        account_added,
        account_updated,
        accounts: 0,
        added: 0,
        updated: 0,
        unchanged: 0,
        errors: 0,
        balances,
        tx_new,
        tx_updated,
        tx_unchanged,
    }
}

/// The word for what happened to the account's details.
pub open spec fn status_spec(r: AccountSyncReport) -> Seq<char> {
    if r.account_added {
        "added"@
    } else if r.account_updated {
        "updated"@
    } else {
        "unchanged"@
    }
}

/// How an account is named in the summary: its name, followed by its IBAN in
/// brackets when it has one.
pub open spec fn desc_spec(r: AccountSyncReport) -> Seq<char> {
    if r.account_iban@.len() == 0 {
        r.account_name@
    } else {
        r.account_name@ + " ("@ + r.account_iban@ + ")"@
    }
}

/// The word for what happened to the account's details.
pub fn account_status(r: &AccountSyncReport) -> (res: &'static str)
    ensures
        res@ == status_spec(*r),
{
    proof {
        reveal_strlit("added");
        reveal_strlit("updated");
        reveal_strlit("unchanged");
    }
    if r.account_added {
        "added"
    } else if r.account_updated {
        "updated"
    } else {
        "unchanged"
    }
}

/// How an account is named in the summary.
pub fn account_desc(r: &AccountSyncReport) -> (res: String)
    ensures
        res@ == desc_spec(*r),
{
    if r.account_iban.as_str().is_empty() {
        r.account_name.clone()
    } else {
        let mut s = r.account_name.clone();
        s.append(" (");
        s.append(r.account_iban.as_str());
        s.append(")");
        proof {
            reveal_strlit(" (");
            reveal_strlit(")");
        }
        s
    }
}

/// The summary line of an account that was synced.
pub open spec fn account_line_spec(r: AccountSyncReport) -> Seq<char> {
    "    \u{2713} "@ + desc_spec(r) + " \u{2014} "@ + status_spec(r)
}

/// The summary line of an account that was synced.
pub fn account_line(r: &AccountSyncReport) -> (res: String)
    ensures
        res@ == account_line_spec(*r),
{
    let desc = account_desc(r);
    let mut s = "    \u{2713} ".to_owned();
    s.append(desc.as_str());
    s.append(" \u{2014} ");
    s.append(account_status(r));
    s
}

/// The summary line of an account whose sync failed.
pub open spec fn account_error_line_spec(account: Seq<char>, error: Seq<char>) -> Seq<char> {
    "    \u{2717} "@ + account + " \u{2014} error: "@ + error
}

/// The summary line of an account whose sync failed.
pub fn account_error_line(account: &str, error: &str) -> (res: String)
    ensures
        res@ == account_error_line_spec(account@, error@),
{
    let mut s = "    \u{2717} ".to_owned();
    s.append(account);
    s.append(" \u{2014} error: ");
    s.append(error);
    s
}

/// The line that opens a session's accounts in the summary.
pub open spec fn session_line_spec(name: Seq<char>, country: Seq<char>, accounts: nat) -> Seq<char> {
    "  "@ + name + " ("@ + country + ") \u{b7} "@ + decimal(accounts) + " account(s)"@
}

/// The line that opens a session's accounts in the summary.
pub fn session_line(name: &str, country: &str, accounts: usize) -> (res: String)
    ensures
        res@ == session_line_spec(name@, country@, accounts as nat),
{
    let n = usize_text(accounts);
    let mut s = "  ".to_owned();
    s.append(name);
    s.append(" (");
    s.append(country);
    s.append(") \u{b7} ");
    s.append(n.as_str());
    s.append(" account(s)");
    s
}

/// The line that names a bank above its balances or transactions.
pub open spec fn bank_line_spec(name: Seq<char>, country: Seq<char>) -> Seq<char> {
    "  "@ + name + " ("@ + country + ")"@
}

/// The line that names a bank above its balances or transactions.
pub fn bank_line(name: &str, country: &str) -> (res: String)
    ensures
        res@ == bank_line_spec(name@, country@),
{
    let mut s = "  ".to_owned();
    s.append(name);
    s.append(" (");
    s.append(country);
    s.append(")");
    s
}

/// `total` after the sync of one more account, reported by `r`: one more
/// account, counted as added, updated or unchanged as its details were, and
/// its balances and transactions added to the totals.
pub open spec fn added_outcome(total: AccountSyncReport, r: AccountSyncReport) -> AccountSyncReport {
    AccountSyncReport {
        accounts: (total.accounts + 1) as usize,
        added: if r.account_added { (total.added + 1) as usize } else { total.added },
        updated: if !r.account_added && r.account_updated { (total.updated + 1) as usize } else { total.updated },
        unchanged: if !r.account_added && !r.account_updated {
            (total.unchanged + 1) as usize
        } else {
            total.unchanged
        },
        balances: (total.balances + r.balances) as usize,
        tx_new: (total.tx_new + r.tx_new) as usize,
        tx_updated: (total.tx_updated + r.tx_updated) as usize,
        tx_unchanged: (total.tx_unchanged + r.tx_unchanged) as usize,
        ..total
    }
}

/// No total overflows when `r` is added to `total`.
pub open spec fn outcome_fits(total: AccountSyncReport, r: AccountSyncReport) -> bool {
    &&& total.accounts + 1 <= usize::MAX
    &&& total.added + 1 <= usize::MAX
    &&& total.updated + 1 <= usize::MAX
    &&& total.unchanged + 1 <= usize::MAX
    &&& total.balances + r.balances <= usize::MAX
    &&& total.tx_new + r.tx_new <= usize::MAX
    &&& total.tx_updated + r.tx_updated <= usize::MAX
    &&& total.tx_unchanged + r.tx_unchanged <= usize::MAX
}

/// Adds the outcome of one account's sync to the run's totals.
pub fn add_outcome(total: &mut AccountSyncReport, r: &AccountSyncReport)
    requires
        outcome_fits(*old(total), *r),
    ensures
        *final(total) == added_outcome(*old(total), *r),
        final(total).accounts == old(total).accounts + 1,
        r.account_added ==> final(total).added == old(total).added + 1 && final(total).updated == old(total).updated
            && final(total).unchanged == old(total).unchanged,
        !r.account_added && r.account_updated ==> final(total).updated == old(total).updated + 1
            && final(total).added == old(total).added && final(total).unchanged == old(total).unchanged,
        !r.account_added && !r.account_updated ==> final(total).unchanged == old(total).unchanged + 1
            && final(total).added == old(total).added && final(total).updated == old(total).updated,
{
    total.accounts = total.accounts + 1;
    if r.account_added {
        total.added = total.added + 1;
    } else if r.account_updated {
        total.updated = total.updated + 1;
    } else {
        total.unchanged = total.unchanged + 1;
    }
    total.balances = total.balances + r.balances;
    total.tx_new = total.tx_new + r.tx_new;
    total.tx_updated = total.tx_updated + r.tx_updated;
    total.tx_unchanged = total.tx_unchanged + r.tx_unchanged;
}

/// Counts one more session or account that could not be synced.
pub fn add_error(total: &mut AccountSyncReport)
    requires
        old(total).errors < usize::MAX,
    ensures
        *final(total) == (AccountSyncReport { errors: (old(total).errors + 1) as usize, ..*old(total) }),
{
    total.errors = total.errors + 1;
}

/// The totals count each synced account once, by what was done with its
/// details: as added when they were new, as updated when they were stored
/// and changed, as unchanged when they were stored as they were; the other two
/// counts stay, and its balances and transactions join the totals.
pub proof fn lemma_outcome_counts_the_account_by_its_details(total: AccountSyncReport, r: AccountSyncReport)
    requires
        outcome_fits(total, r),
    ensures
        added_outcome(total, r).accounts == total.accounts + 1,
        r.account_added ==> added_outcome(total, r).added == total.added + 1 && added_outcome(total, r).updated
            == total.updated && added_outcome(total, r).unchanged == total.unchanged,
        !r.account_added && r.account_updated ==> added_outcome(total, r).updated == total.updated + 1
            && added_outcome(total, r).added == total.added && added_outcome(total, r).unchanged == total.unchanged,
        !r.account_added && !r.account_updated ==> added_outcome(total, r).unchanged == total.unchanged + 1
            && added_outcome(total, r).added == total.added && added_outcome(total, r).updated == total.updated,
        added_outcome(total, r).errors == total.errors,
        added_outcome(total, r).balances == total.balances + r.balances,
        added_outcome(total, r).tx_new == total.tx_new + r.tx_new,
        added_outcome(total, r).tx_updated == total.tx_updated + r.tx_updated,
        added_outcome(total, r).tx_unchanged == total.tx_unchanged + r.tx_unchanged,
{
}

/// Each account synced adds one to exactly one of the added, updated and
/// unchanged counts, so their sum follows the number of accounts.
pub proof fn lemma_outcome_keeps_account_sum(total: AccountSyncReport, r: AccountSyncReport)
    requires
        outcome_fits(total, r),
    ensures
        added_outcome(total, r).added + added_outcome(total, r).updated + added_outcome(total, r).unchanged
            - added_outcome(total, r).accounts == total.added + total.updated + total.unchanged - total.accounts,
{
}

/// Whether the bank of a session, named `name` in `country`, is among the
/// banks that a run is limited to; every bank is when there is no limit.
pub open spec fn bank_selected_spec(filter: Option<Seq<(String, String)>>, name: Seq<char>, country: Seq<char>) -> bool {
    match filter {
        None => true,
        Some(banks) => exists|i: int| 0 <= i < banks.len() && (#[trigger] banks[i]).0@ == name && banks[i].1@ == country,
    }
}

fn contains_bank(banks: &Vec<(String, String)>, name: &str, country: &str) -> (res: bool)
    ensures
        res == exists|i: int| 0 <= i < banks@.len() && (#[trigger] banks@[i]).0@ == name@ && banks@[i].1@ == country@,
{
    let n = banks.len();
    let mut i: usize = 0;
    while i < n
        invariant
            n == banks@.len(),
            i <= n,
            forall|j: int| 0 <= j < i ==> !((#[trigger] banks@[j]).0@ == name@ && banks@[j].1@ == country@),
        decreases n - i,
    {
        if crate::text::str_eq(banks[i].0.as_str(), name) && crate::text::str_eq(banks[i].1.as_str(), country) {
            assert(banks@[i as int].0@ == name@ && banks@[i as int].1@ == country@);
            return true;
        }
        i = i + 1;
    }
    false
}

/// Whether the bank named `name` in `country` is among the banks that a run is
/// limited to.
pub fn bank_selected(filter: &Option<Vec<(String, String)>>, name: &str, country: &str) -> (res: bool)
    ensures
        res == bank_selected_spec(
            match *filter {
                Some(v) => Some(v@),
                None => None,
            },
            name@,
            country@,
        ),
{
    match filter {
        None => true,
        Some(banks) => {
            let found = contains_bank(banks, name, country);
            proof {
                if found {
                    let i = choose|i: int|
                        0 <= i < banks@.len() && (#[trigger] banks@[i]).0@ == name@ && banks@[i].1@ == country@;
                    let f: Option<Seq<(String, String)>> = Some(banks@);
                    assert(f->Some_0[i] == banks@[i]);
                    assert(bank_selected_spec(f, name@, country@));
                }
            }
            found
        },
    }
}

/// The first of `keys` that names no configured bank.
pub open spec fn first_unknown_bank(c: Config, keys: Seq<String>) -> Option<int> {
    if exists|i: int| 0 <= i < keys.len() && resolved_bank_index(c, Some((#[trigger] keys[i])@)) is None {
        Some(
            choose|i: int|
                0 <= i < keys.len() && resolved_bank_index(c, Some((#[trigger] keys[i])@)) is None && forall|j: int|
                    0 <= j < i ==> resolved_bank_index(c, Some((#[trigger] keys[j])@)) is Some,
        )
    } else {
        None
    }
}

/// The banks that a run is limited to: for each of `keys`, the name and
/// country of the bank configured under it, in order. Fails on the first key
/// that names no bank, with the error that resolving it gives.
pub fn resolve_bank_filters(config: &Config, keys: Option<Vec<String>>) -> (res: Result<Option<Vec<(String, String)>>, ConfigError>)
    ensures
        match keys {
            None => res matches Ok(None),
            Some(ks) => match res {
                Ok(Some(pairs)) => {
                    &&& pairs@.len() == ks@.len()
                    &&& forall|i: int|
                        0 <= i < ks@.len() ==> (resolved_bank_index(*config, Some((#[trigger] ks@[i])@)) matches Some(
                            b,
                        ) && pairs@[i].0@ == config.bank@[b].1.name@ && pairs@[i].1@ == config.bank@[b].1.country@)
                },
                Ok(None) => false,
                Err(e) => exists|i: int|
                    {
                        &&& 0 <= i < ks@.len()
                        &&& resolved_bank_index(*config, Some((#[trigger] ks@[i])@)) is None
                        &&& forall|j: int|
                            0 <= j < i ==> resolved_bank_index(*config, Some((#[trigger] ks@[j])@)) is Some
                        &&& e matches ConfigError::BankNotFound { name: m, available: a } && m@ == ks@[i]@
                            && a@ == join_spec(bank_keys(*config), ", "@)
                    },
            },
        },
{
    match keys {
        None => Ok(None),
        Some(ks) => match resolve_bank_keys(config, &ks) {
            Ok(pairs) => Ok(Some(pairs)),
            Err(e) => Err(e),
        },
    }
}

fn resolve_bank_keys(config: &Config, ks: &Vec<String>) -> (res: Result<Vec<(String, String)>, ConfigError>)
    ensures
        match res {
            Ok(pairs) => {
                &&& pairs@.len() == ks@.len()
                &&& forall|i: int|
                    0 <= i < ks@.len() ==> (resolved_bank_index(*config, Some((#[trigger] ks@[i])@)) matches Some(b)
                        && pairs@[i].0@ == config.bank@[b].1.name@ && pairs@[i].1@ == config.bank@[b].1.country@)
            },
            Err(e) => exists|i: int|
                {
                    &&& 0 <= i < ks@.len()
                    &&& resolved_bank_index(*config, Some((#[trigger] ks@[i])@)) is None
                    &&& forall|j: int|
                        0 <= j < i ==> resolved_bank_index(*config, Some((#[trigger] ks@[j])@)) is Some
                    &&& e matches ConfigError::BankNotFound { name: m, available: a } && m@ == ks@[i]@
                        && a@ == join_spec(bank_keys(*config), ", "@)
                },
        },
{
    let n = ks.len();
    let mut pairs: Vec<(String, String)> = Vec::new();
    let mut i: usize = 0;
    while i < n
        invariant
            n == ks@.len(),
            i <= n,
            pairs@.len() == i,
            forall|k: int|
                0 <= k < i ==> (resolved_bank_index(*config, Some((#[trigger] ks@[k])@)) matches Some(b)
                    && pairs@[k].0@ == config.bank@[b].1.name@ && pairs@[k].1@ == config.bank@[b].1.country@),
        decreases n - i,
    {
        match config.resolve_bank(Some(ks[i].as_str())) {
            Ok((_key, bank)) => {
                pairs.push((bank.name.clone(), bank.country.clone()));
            },
            Err(e) => {
                assert(resolved_bank_index(*config, Some(ks@[i as int]@)) is None);
                return Err(e);
            },
        }
        i = i + 1;
    }
    Ok(pairs)
}

/// What a run does with one stored session.
#[derive(Clone, Copy, Debug, PartialEq, Eq, Structural)]
pub enum SessionStep {
    /// The session has expired: it is skipped and counted as an error.
    Expired,
    /// Its bank is not among those the run is limited to: it is skipped.
    NotSelected,
    /// No configured application has the session's application id: it is
    /// skipped and counted as an error.
    NoApplication,
    /// Its accounts are synced.
    Sync,
}

/// What a run does with a session, tested in this order: whether it has
/// expired, whether its bank is selected, whether its application is
/// configured.
pub fn session_step(expired: bool, selected: bool, app_found: bool) -> (res: SessionStep)
    ensures
        res == (if expired {
            SessionStep::Expired
        } else if !selected {
            SessionStep::NotSelected
        } else if !app_found {
            SessionStep::NoApplication
        } else {
            SessionStep::Sync
        }),
{
    if expired {
        SessionStep::Expired
    } else if !selected {
        SessionStep::NotSelected
    } else if !app_found {
        SessionStep::NoApplication
    } else {
        SessionStep::Sync
    }
}

/// The progress message while the account `index` (counted from one) of
/// `total` of a session is synced.
pub open spec fn progress_spec(name: Seq<char>, country: Seq<char>, index: nat, total: nat) -> Seq<char> {
    name + " ("@ + country + ") \u{b7} Processing account "@ + decimal(index) + "/"@ + decimal(total) + "..."@
}

/// The progress message while the account at position `i` of `total` of a
/// session is synced.
pub fn progress_message(name: &str, country: &str, i: usize, total: usize) -> (res: String)
    requires
        i < total,
    ensures
        res@ == progress_spec(name@, country@, (i + 1) as nat, total as nat),
{
    let index = usize_text(i + 1);
    let count = usize_text(total);
    let mut s = name.to_owned();
    s.append(" (");
    s.append(country);
    s.append(") \u{b7} Processing account ");
    s.append(index.as_str());
    s.append("/");
    s.append(count.as_str());
    s.append("...");
    s
}

/// The balances stored for the accounts of a session.
pub open spec fn balance_sum(outcomes: Seq<AccountSyncReport>) -> nat
    decreases outcomes.len(),
{
    if outcomes.len() == 0 {
        0
    } else {
        balance_sum(outcomes.drop_last()) + outcomes.last().balances as nat
    }
}

/// The balance lines of a session in the summary: the bank and the number of
/// balances stored, or nothing when none was.
pub open spec fn balance_lines_spec(name: Seq<char>, country: Seq<char>, outcomes: Seq<AccountSyncReport>) -> Seq<Seq<char>> {
    if balance_sum(outcomes) > 0 {
        seq![bank_line_spec(name, country), "    \u{2713} "@ + decimal(balance_sum(outcomes)) + " balance(s) stored"@]
    } else {
        seq![]
    }
}

proof fn lemma_balance_sum_prefix(outcomes: Seq<AccountSyncReport>, i: int)
    requires
        0 <= i <= outcomes.len(),
    ensures
        balance_sum(outcomes.take(i)) <= balance_sum(outcomes),
    decreases outcomes.len(),
{
    if i < outcomes.len() {
        assert(outcomes.drop_last().take(i) =~= outcomes.take(i));
        lemma_balance_sum_prefix(outcomes.drop_last(), i);
    } else {
        assert(outcomes.take(i) =~= outcomes);
    }
}

/// The balance lines of a session in the summary.
pub fn balance_lines(name: &str, country: &str, outcomes: &Vec<AccountSyncReport>) -> (res: Vec<String>)
    requires
        balance_sum(outcomes@) <= usize::MAX,
    ensures
        res@.map_values(|l: String| l@) == balance_lines_spec(name@, country@, outcomes@),
{
    let n = outcomes.len();
    let mut sum: usize = 0;
    let mut i: usize = 0;
    while i < n
        invariant
            n == outcomes@.len(),
            i <= n,
            balance_sum(outcomes@) <= usize::MAX,
            sum == balance_sum(outcomes@.take(i as int)),
        decreases n - i,
    {
        proof {
            assert(outcomes@.take(i + 1).drop_last() =~= outcomes@.take(i as int));
            lemma_balance_sum_prefix(outcomes@, i + 1);
        }
        sum = sum + outcomes[i].balances;
        i = i + 1;
    }
    assert(outcomes@.take(n as int) =~= outcomes@);
    let mut lines: Vec<String> = Vec::new();
    if sum > 0 {
        lines.push(bank_line(name, country));
        let count = usize_text(sum);
        let mut s = "    \u{2713} ".to_owned();
        s.append(count.as_str());
        s.append(" balance(s) stored");
        lines.push(s);
    }
    assert(lines@.map_values(|l: String| l@) =~= balance_lines_spec(name@, country@, outcomes@));
    lines
}

/// Whether the sync of an account saw any transaction.
pub open spec fn has_transactions(r: AccountSyncReport) -> bool {
    r.tx_new + r.tx_updated + r.tx_unchanged > 0
}

/// The transaction line of an account in the summary.
pub open spec fn tx_line_spec(r: AccountSyncReport) -> Seq<char> {
    "    \u{2713} "@ + desc_spec(r) + " \u{b7} "@ + decimal(r.tx_new as nat) + " new \u{b7} "@ + decimal(
        r.tx_updated as nat,
    ) + " updated \u{b7} "@ + decimal(r.tx_unchanged as nat) + " unchanged"@
}

/// The transaction lines of the accounts of `outcomes` that saw transactions.
pub open spec fn account_tx_lines(outcomes: Seq<AccountSyncReport>) -> Seq<Seq<char>>
    decreases outcomes.len(),
{
    if outcomes.len() == 0 {
        seq![]
    } else {
        account_tx_lines(outcomes.drop_last()) + if has_transactions(outcomes.last()) {
            seq![tx_line_spec(outcomes.last())]
        } else {
            seq![]
        }
    }
}

/// The transaction lines of a session in the summary: the bank, then a line
/// for each account that saw transactions; nothing when none did.
pub open spec fn tx_lines_spec(name: Seq<char>, country: Seq<char>, outcomes: Seq<AccountSyncReport>) -> Seq<Seq<char>> {
    if account_tx_lines(outcomes).len() > 0 {
        seq![bank_line_spec(name, country)] + account_tx_lines(outcomes)
    } else {
        seq![]
    }
}

/// Whether the sync of `r` saw any transaction: new, updated or unchanged.
pub open spec fn saw_transactions(r: AccountSyncReport) -> bool {
    r.tx_new > 0 || r.tx_updated > 0 || r.tx_unchanged > 0
}

/// The account lines of the transaction section list exactly the accounts
/// whose sync saw any transaction, new, updated or unchanged alike: each such
/// account has its line, every line is the line of such an account, and
/// there is a line as soon as there is such an account.
proof fn lemma_account_tx_lines_list_the_accounts(outcomes: Seq<AccountSyncReport>)
    ensures
        forall|i: int|
            0 <= i < outcomes.len() && saw_transactions(#[trigger] outcomes[i]) ==> account_tx_lines(outcomes).contains(
                tx_line_spec(outcomes[i]),
            ),
        forall|k: int|
            #![trigger account_tx_lines(outcomes)[k]]
            0 <= k < account_tx_lines(outcomes).len() ==> exists|i: int|
                0 <= i < outcomes.len() && saw_transactions(#[trigger] outcomes[i]) && account_tx_lines(outcomes)[k]
                    == tx_line_spec(outcomes[i]),
        account_tx_lines(outcomes).len() > 0 <==> exists|i: int|
            0 <= i < outcomes.len() && saw_transactions(#[trigger] outcomes[i]),
    decreases outcomes.len(),
{
    if outcomes.len() > 0 {
        let rest = outcomes.drop_last();
        lemma_account_tx_lines_list_the_accounts(rest);
        let prev = account_tx_lines(rest);
        let all = account_tx_lines(outcomes);
        let n = outcomes.len() - 1;
        assert(all == prev + if has_transactions(outcomes.last()) {
            seq![tx_line_spec(outcomes.last())]
        } else {
            seq![]
        });
        assert forall|i: int| 0 <= i < outcomes.len() && saw_transactions(#[trigger] outcomes[i]) implies all.contains(
            tx_line_spec(outcomes[i]),
        ) by {
            if i < n {
                assert(rest[i] == outcomes[i]);
                assert(saw_transactions(rest[i]));
                let k = choose|k: int| 0 <= k < prev.len() && prev[k] == tx_line_spec(rest[i]);
                assert(all[k] == prev[k]);
            } else {
                assert(all[all.len() - 1] == tx_line_spec(outcomes[i]));
            }
        }
        assert forall|k: int| #![trigger all[k]] 0 <= k < all.len() implies exists|i: int|
            0 <= i < outcomes.len() && saw_transactions(#[trigger] outcomes[i]) && all[k] == tx_line_spec(outcomes[i]) by {
            if k < prev.len() {
                assert(all[k] == prev[k]);
                let i = choose|i: int|
                    0 <= i < rest.len() && saw_transactions(#[trigger] rest[i]) && prev[k] == tx_line_spec(rest[i]);
                assert(rest[i] == outcomes[i]);
            } else {
                assert(saw_transactions(outcomes[n]));
            }
        }
        if exists|i: int| 0 <= i < outcomes.len() && saw_transactions(#[trigger] outcomes[i]) {
            let i = choose|i: int| 0 <= i < outcomes.len() && saw_transactions(#[trigger] outcomes[i]);
            if i < n {
                assert(rest[i] == outcomes[i]);
                assert(saw_transactions(rest[i]));
            }
        }
        if all.len() > 0 {
            if prev.len() > 0 {
                let i = choose|i: int| 0 <= i < rest.len() && saw_transactions(#[trigger] rest[i]);
                assert(rest[i] == outcomes[i]);
            } else {
                assert(saw_transactions(outcomes[n]));
            }
        }
    }
}

/// The transaction section of a session lists exactly the accounts whose
/// sync saw any transaction (new, updated or unchanged): it is empty when no
/// account did; otherwise it starts with the bank's line, every account that
/// saw transactions has its line, and every other line is such an account's.
pub proof fn lemma_tx_lines_list_accounts_with_transactions(
    name: Seq<char>,
    country: Seq<char>,
    outcomes: Seq<AccountSyncReport>,
)
    ensures
        tx_lines_spec(name, country, outcomes).len() > 0 <==> exists|i: int|
            0 <= i < outcomes.len() && (#[trigger] outcomes[i]).tx_new + outcomes[i].tx_updated
                + outcomes[i].tx_unchanged > 0,
        tx_lines_spec(name, country, outcomes).len() > 0 ==> tx_lines_spec(name, country, outcomes)[0]
            == bank_line_spec(name, country),
        forall|i: int|
            0 <= i < outcomes.len() && (#[trigger] outcomes[i]).tx_new + outcomes[i].tx_updated
                + outcomes[i].tx_unchanged > 0 ==> tx_lines_spec(name, country, outcomes).contains(
                tx_line_spec(outcomes[i]),
            ),
        forall|k: int|
            #![trigger tx_lines_spec(name, country, outcomes)[k]]
            1 <= k < tx_lines_spec(name, country, outcomes).len() ==> exists|i: int|
                0 <= i < outcomes.len() && (#[trigger] outcomes[i]).tx_new + outcomes[i].tx_updated
                    + outcomes[i].tx_unchanged > 0 && tx_lines_spec(name, country, outcomes)[k] == tx_line_spec(
                    outcomes[i],
                ),
{
    lemma_account_tx_lines_list_the_accounts(outcomes);
    let body = account_tx_lines(outcomes);
    let all = tx_lines_spec(name, country, outcomes);
    assert forall|i: int|
        0 <= i < outcomes.len() && (#[trigger] outcomes[i]).tx_new + outcomes[i].tx_updated + outcomes[i].tx_unchanged
            > 0 implies all.contains(tx_line_spec(outcomes[i])) by {
        assert(saw_transactions(outcomes[i]));
        let k = choose|k: int| 0 <= k < body.len() && body[k] == tx_line_spec(outcomes[i]);
        assert(all[k + 1] == body[k]);
    }
    assert forall|k: int| #![trigger all[k]] 1 <= k < all.len() implies exists|i: int|
        0 <= i < outcomes.len() && (#[trigger] outcomes[i]).tx_new + outcomes[i].tx_updated + outcomes[i].tx_unchanged
            > 0 && all[k] == tx_line_spec(outcomes[i]) by {
        assert(all[k] == body[k - 1]);
        let i = choose|i: int| 0 <= i < outcomes.len() && saw_transactions(#[trigger] outcomes[i]) && body[k - 1]
            == tx_line_spec(outcomes[i]);
        assert(outcomes[i].tx_new + outcomes[i].tx_updated + outcomes[i].tx_unchanged > 0);
    }
    if exists|i: int| 0 <= i < outcomes.len() && (#[trigger] outcomes[i]).tx_new + outcomes[i].tx_updated
        + outcomes[i].tx_unchanged > 0 {
        let i = choose|i: int| 0 <= i < outcomes.len() && (#[trigger] outcomes[i]).tx_new + outcomes[i].tx_updated
            + outcomes[i].tx_unchanged > 0;
        assert(saw_transactions(outcomes[i]));
    }
    if all.len() > 0 {
        let i = choose|i: int| 0 <= i < outcomes.len() && saw_transactions(#[trigger] outcomes[i]);
        assert(outcomes[i].tx_new + outcomes[i].tx_updated + outcomes[i].tx_unchanged > 0);
    }
}

/// The transaction line of an account in the summary.
pub fn tx_line(r: &AccountSyncReport) -> (res: String)
    ensures
        res@ == tx_line_spec(*r),
{
    let desc = account_desc(r);
    let new_count = usize_text(r.tx_new);
    let updated_count = usize_text(r.tx_updated);
    let unchanged_count = usize_text(r.tx_unchanged);
    let mut s = "    \u{2713} ".to_owned();
    s.append(desc.as_str());
    s.append(" \u{b7} ");
    s.append(new_count.as_str());
    s.append(" new \u{b7} ");
    s.append(updated_count.as_str());
    s.append(" updated \u{b7} ");
    s.append(unchanged_count.as_str());
    s.append(" unchanged");
    s
}

/// The transaction lines of a session in the summary.
pub fn tx_lines(name: &str, country: &str, outcomes: &Vec<AccountSyncReport>) -> (res: Vec<String>)
    ensures
        res@.map_values(|l: String| l@) == tx_lines_spec(name@, country@, outcomes@),
        res@.len() > 0 <==> exists|i: int|
            0 <= i < outcomes@.len() && (#[trigger] outcomes@[i]).tx_new + outcomes@[i].tx_updated
                + outcomes@[i].tx_unchanged > 0,
        forall|i: int|
            0 <= i < outcomes@.len() && (#[trigger] outcomes@[i]).tx_new + outcomes@[i].tx_updated
                + outcomes@[i].tx_unchanged > 0 ==> exists|k: int|
                0 <= k < res@.len() && (#[trigger] res@[k])@ == tx_line_spec(outcomes@[i]),
{
    proof {
        lemma_tx_lines_list_accounts_with_transactions(name@, country@, outcomes@);
    }
    let res = tx_lines_body(name, country, outcomes);
    proof {
        let lines = res@.map_values(|l: String| l@);
        assert forall|i: int|
            0 <= i < outcomes@.len() && (#[trigger] outcomes@[i]).tx_new + outcomes@[i].tx_updated
                + outcomes@[i].tx_unchanged > 0 implies exists|k: int|
            0 <= k < res@.len() && (#[trigger] res@[k])@ == tx_line_spec(outcomes@[i]) by {
            let k = choose|k: int| 0 <= k < lines.len() && lines[k] == tx_line_spec(outcomes@[i]);
            assert(lines[k] == res@[k]@);
        }
    }
    res
}

fn tx_lines_body(name: &str, country: &str, outcomes: &Vec<AccountSyncReport>) -> (res: Vec<String>)
    ensures
        res@.map_values(|l: String| l@) == tx_lines_spec(name@, country@, outcomes@),
{
    let n = outcomes.len();
    let mut body: Vec<String> = Vec::new();
    let mut i: usize = 0;
    while i < n
        invariant
            n == outcomes@.len(),
            i <= n,
            body@.map_values(|l: String| l@) == account_tx_lines(outcomes@.take(i as int)),
        decreases n - i,
    {
        proof {
            assert(outcomes@.take(i + 1).drop_last() =~= outcomes@.take(i as int));
            assert(outcomes@.take(i + 1).last() == outcomes@[i as int]);
        }
        let r = &outcomes[i];
        let ghost before = body@;
        if r.tx_new > 0 || r.tx_updated > 0 || r.tx_unchanged > 0 {
            body.push(tx_line(r));
            assert(body@.map_values(|l: String| l@) =~= before.map_values(|l: String| l@) + seq![tx_line_spec(*r)]);
        } else {
            assert(seq![] + before.map_values(|l: String| l@) =~= before.map_values(|l: String| l@));
            assert(before.map_values(|l: String| l@) + seq![] =~= before.map_values(|l: String| l@));
        }
        i = i + 1;
    }
    assert(outcomes@.take(n as int) =~= outcomes@);
    if body.len() > 0 {
        let mut lines: Vec<String> = Vec::new();
        lines.push(bank_line(name, country));
        let ghost head = lines@;
        lines.append(&mut body);
        assert(lines@.map_values(|l: String| l@) =~= head.map_values(|l: String| l@) + account_tx_lines(outcomes@));
        lines
    } else {
        assert(body@.map_values(|l: String| l@) =~= Seq::<Seq<char>>::empty());
        body
    }
}

/// The line that closes a run's summary, before the totals.
pub open spec fn complete_line_spec(errors: nat, db_path: Seq<char>) -> Seq<char> {
    if errors > 0 {
        "\nSync complete ("@ + decimal(errors) + " error(s)). Data stored in "@ + db_path
    } else {
        "\nSync complete. Data stored in "@ + db_path
    }
}

/// The line that closes a run's summary, before the totals.
pub fn complete_line(errors: usize, db_path: &str) -> (res: String)
    ensures
        res@ == complete_line_spec(errors as nat, db_path@),
{
    if errors > 0 {
        let count = usize_text(errors);
        let mut s = "\nSync complete (".to_owned();
        s.append(count.as_str());
        s.append(" error(s)). Data stored in ");
        s.append(db_path);
        s
    } else {
        let mut s = "\nSync complete. Data stored in ".to_owned();
        s.append(db_path);
        s
    }
}

/// The totals of a run.
pub open spec fn totals_line_spec(t: AccountSyncReport) -> Seq<char> {
    "("@ + decimal(t.accounts as nat) + " accounts \u{b7} "@ + decimal(t.added as nat) + " added, "@ + decimal(
        t.updated as nat,
    ) + " updated, "@ + decimal(t.unchanged as nat) + " unchanged; "@ + decimal(t.balances as nat)
        + " balances; "@ + decimal(t.tx_new as nat) + " new txs, "@ + decimal(t.tx_updated as nat)
        + " updated, "@ + decimal(t.tx_unchanged as nat) + " unchanged)"@
}

/// The totals of a run.
pub fn totals_line(t: &AccountSyncReport) -> (res: String)
    ensures
        res@ == totals_line_spec(*t),
{
    let accounts = usize_text(t.accounts);
    let added = usize_text(t.added);
    let updated = usize_text(t.updated);
    let unchanged = usize_text(t.unchanged);
    let balances = usize_text(t.balances);
    let tx_new = usize_text(t.tx_new);
    let tx_updated = usize_text(t.tx_updated);
    let tx_unchanged = usize_text(t.tx_unchanged);
    let mut s = "(".to_owned();
    s.append(accounts.as_str());
    s.append(" accounts \u{b7} ");
    s.append(added.as_str());
    s.append(" added, ");
    s.append(updated.as_str());
    s.append(" updated, ");
    s.append(unchanged.as_str());
    s.append(" unchanged; ");
    s.append(balances.as_str());
    s.append(" balances; ");
    s.append(tx_new.as_str());
    s.append(" new txs, ");
    s.append(tx_updated.as_str());
    s.append(" updated, ");
    s.append(tx_unchanged.as_str());
    s.append(" unchanged)");
    s
}

/// The heading of the accounts section.
pub open spec fn accounts_heading() -> Seq<char> {
    "\n[1/3] Accounts \u{2500}\u{2500}\u{2500}\u{2500}\u{2500}\u{2500}\u{2500}\u{2500}\u{2500}\u{2500}\u{2500}\u{2500}\u{2500}\u{2500}\u{2500}\u{2500}\u{2500}\u{2500}\u{2500}\u{2500}\u{2500}\u{2500}\u{2500}\u{2500}\u{2500}\u{2500}"@
}

/// The heading of the balances section.
pub open spec fn balances_heading() -> Seq<char> {
    "\n[2/3] Balances \u{2500}\u{2500}\u{2500}\u{2500}\u{2500}\u{2500}\u{2500}\u{2500}\u{2500}\u{2500}\u{2500}\u{2500}\u{2500}\u{2500}\u{2500}\u{2500}\u{2500}\u{2500}\u{2500}\u{2500}\u{2500}\u{2500}\u{2500}\u{2500}\u{2500}\u{2500}"@
}

/// The heading of the transactions section.
pub open spec fn transactions_heading() -> Seq<char> {
    "\n[3/3] Transactions \u{2500}\u{2500}\u{2500}\u{2500}\u{2500}\u{2500}\u{2500}\u{2500}\u{2500}\u{2500}\u{2500}\u{2500}\u{2500}\u{2500}\u{2500}\u{2500}\u{2500}\u{2500}\u{2500}\u{2500}\u{2500}\u{2500}"@
}

/// The summary that a run prints, line by line: the accounts section, the
/// balances and transactions sections when they have lines, the closing line
/// and the totals.
pub open spec fn summary_spec(
    account_lines: Seq<Seq<char>>,
    balance_lines: Seq<Seq<char>>,
    tx_lines: Seq<Seq<char>>,
    total: AccountSyncReport,
    db_path: Seq<char>,
) -> Seq<Seq<char>> {
    seq![accounts_heading()] + account_lines + (if balance_lines.len() > 0 {
        seq![balances_heading()] + balance_lines
    } else {
        seq![]
    }) + (if tx_lines.len() > 0 {
        seq![transactions_heading()] + tx_lines
    } else {
        seq![]
    }) + seq![complete_line_spec(total.errors as nat, db_path), totals_line_spec(total)]
}

fn push_all(out: &mut Vec<String>, lines: &Vec<String>)
    ensures
        final(out)@.map_values(|l: String| l@) == old(out)@.map_values(|l: String| l@) + lines@.map_values(
            |l: String| l@,
        ),
{
    let n = lines.len();
    let mut i: usize = 0;
    while i < n
        invariant
            n == lines@.len(),
            i <= n,
            out@.map_values(|l: String| l@) == old(out)@.map_values(|l: String| l@) + lines@.take(
                i as int,
            ).map_values(|l: String| l@),
        decreases n - i,
    {
        let ghost before = out@;
        out.push(lines[i].clone());
        assert(lines@.take(i + 1).map_values(|l: String| l@) =~= lines@.take(i as int).map_values(
            |l: String| l@,
        ).push(lines@[i as int]@));
        assert(out@.map_values(|l: String| l@) =~= before.map_values(|l: String| l@).push(lines@[i as int]@));
        i = i + 1;
    }
    assert(lines@.take(n as int) =~= lines@);
}

/// The summary that a run prints, line by line.
pub fn summary(
    account_lines: &Vec<String>,
    balance_lines: &Vec<String>,
    tx_lines: &Vec<String>,
    total: &AccountSyncReport,
    db_path: &str,
) -> (res: Vec<String>)
    ensures
        res@.map_values(|l: String| l@) == summary_spec(
            account_lines@.map_values(|l: String| l@),
            balance_lines@.map_values(|l: String| l@),
            tx_lines@.map_values(|l: String| l@),
            *total,
            db_path@,
        ),
{
    let ghost al = account_lines@.map_values(|l: String| l@);
    let ghost bl = balance_lines@.map_values(|l: String| l@);
    let ghost tl = tx_lines@.map_values(|l: String| l@);
    let mut out: Vec<String> = Vec::new();
    out.push("\n[1/3] Accounts \u{2500}\u{2500}\u{2500}\u{2500}\u{2500}\u{2500}\u{2500}\u{2500}\u{2500}\u{2500}\u{2500}\u{2500}\u{2500}\u{2500}\u{2500}\u{2500}\u{2500}\u{2500}\u{2500}\u{2500}\u{2500}\u{2500}\u{2500}\u{2500}\u{2500}\u{2500}".to_owned());
    assert(out@.map_values(|l: String| l@) =~= seq![accounts_heading()]);
    push_all(&mut out, account_lines);
    let ghost after_accounts = out@.map_values(|l: String| l@);
    if balance_lines.len() > 0 {
        out.push("\n[2/3] Balances \u{2500}\u{2500}\u{2500}\u{2500}\u{2500}\u{2500}\u{2500}\u{2500}\u{2500}\u{2500}\u{2500}\u{2500}\u{2500}\u{2500}\u{2500}\u{2500}\u{2500}\u{2500}\u{2500}\u{2500}\u{2500}\u{2500}\u{2500}\u{2500}\u{2500}\u{2500}".to_owned());
        push_all(&mut out, balance_lines);
        assert(out@.map_values(|l: String| l@) =~= after_accounts + (seq![balances_heading()] + bl));
    } else {
        assert(out@.map_values(|l: String| l@) =~= after_accounts + Seq::<Seq<char>>::empty());
    }
    let ghost after_balances = out@.map_values(|l: String| l@);
    if tx_lines.len() > 0 {
        out.push("\n[3/3] Transactions \u{2500}\u{2500}\u{2500}\u{2500}\u{2500}\u{2500}\u{2500}\u{2500}\u{2500}\u{2500}\u{2500}\u{2500}\u{2500}\u{2500}\u{2500}\u{2500}\u{2500}\u{2500}\u{2500}\u{2500}\u{2500}\u{2500}".to_owned());
        push_all(&mut out, tx_lines);
        assert(out@.map_values(|l: String| l@) =~= after_balances + (seq![transactions_heading()] + tl));
    } else {
        assert(out@.map_values(|l: String| l@) =~= after_balances + Seq::<Seq<char>>::empty());
    }
    let ghost after_tx = out@.map_values(|l: String| l@);
    out.push(complete_line(total.errors, db_path));
    out.push(totals_line(total));
    assert(out@.map_values(|l: String| l@) =~= after_tx + seq![
        complete_line_spec(total.errors as nat, db_path@),
        totals_line_spec(*total),
    ]);
    out
}

} // verus!
