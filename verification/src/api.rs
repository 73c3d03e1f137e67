//! The Enable Banking API client's own rules: where it sends requests, how it
//! authenticates, which period of transactions it asks for, and when it warns
//! that older transactions may be out of reach.

use vstd::prelude::*;
use vstd::string::*;
use crate::session::SessionAccessLevel;
use crate::text::decimal;
use crate::time::{Span, TimeFrame, Timestamp, before, chrono_checked_sub, day_of, minus};

verus! {

/// What the client needs to send requests: the API's base URL and the value
/// of the `Authorization` header.
pub struct EnableBankingClient {
    pub base_url: String,
    pub authorization: String,
}

/// `s` without the `/` characters at its end.
pub open spec fn trim_slashes(s: Seq<char>) -> Seq<char>
    decreases s.len(),
{
    if s.len() > 0 && s.last() == '/' {
        trim_slashes(s.drop_last())
    } else {
        s
    }
}

/// `s` without the `/` characters at its end.
pub fn trim_end_slashes(s: &str) -> (res: String)
    ensures
        res@ == trim_slashes(s@),
{
    let n = s.unicode_len();
    let mut k: usize = n;
    assert(s@.take(n as int) =~= s@);
    while k > 0 && s.get_char(k - 1) == '/'
        invariant
            n == s@.len(),
            k <= n,
            trim_slashes(s@) == trim_slashes(s@.take(k as int)),
        decreases k,
    {
        proof {
            assert(s@.take(k as int).drop_last() =~= s@.take(k - 1));
        }
        k = k - 1;
    }
    assert(trim_slashes(s@.take(k as int)) == s@.take(k as int));
    let t = s.substring_char(0, k);
    assert(t@ =~= s@.take(k as int));
    t.to_owned()
}

impl EnableBankingClient {
    /// A client for the API at `api_base_url` (without trailing `/`) that
    /// authenticates with the bearer token `token`.
    pub fn new(api_base_url: &str, token: &str) -> (res: EnableBankingClient)
        ensures
            res.base_url@ == trim_slashes(api_base_url@),
            res.authorization@ == "Bearer "@ + token@,
    {
        let base_url = trim_end_slashes(api_base_url);
        let mut authorization = "Bearer ".to_owned();
        authorization.append(token);
        EnableBankingClient { base_url, authorization }
    }
}

/// How much transaction history the API is asked for.
#[derive(Clone, Copy, Debug, PartialEq, Eq, Structural)]
pub enum FetchStrategy {
    /// The bank's default period, within the dates given.
    Default,
    /// The longest period the bank offers.
    Longest,
}

/// The period of a transactions request: its first and last day (days since
/// the epoch, UTC), and the strategy.
#[derive(Clone, Copy, Debug, PartialEq, Eq, Structural)]
pub struct FetchWindow {
    pub date_from: Option<i64>,
    pub date_to: Option<i64>,
    pub strategy: FetchStrategy,
}

/// The period of the transactions request for `time_frame`: the days of its
/// ends with the default strategy, or no dates and the longest history.
pub fn fetch_window(time_frame: Option<TimeFrame>) -> (res: FetchWindow)
    ensures
        match time_frame {
            Some(tf) => res.date_from == Some(day_of(tf.from) as i64) && res.date_to == Some(day_of(tf.to) as i64)
                && res.strategy == FetchStrategy::Default,
            None => res.date_from is None && res.date_to is None && res.strategy == FetchStrategy::Longest,
        },
{
    match time_frame {
        Some(tf) => FetchWindow {
            date_from: Some(tf.from.day_number()),
            date_to: Some(tf.to.day_number()),
            strategy: FetchStrategy::Default,
        },
        None => FetchWindow { date_from: None, date_to: None, strategy: FetchStrategy::Longest },
    }
}

/// The start of the history that a session has regular access to at `now`:
/// ninety days before, where `chrono` can represent it.
pub fn regular_access_cutoff(now: Timestamp) -> (res: Option<Timestamp>)
    ensures
        match res {
            Some(c) => chrono_checked_sub(now.secs, now.nanos, 7776000, 0) == Some((c.secs, c.nanos)),
            None => chrono_checked_sub(now.secs, now.nanos, 7776000, 0) is None,
        },
{
    minus(now, Span { secs: 7776000, nanos: 0 })
}

/// Whether a transactions request of a session with access `level` for
/// `time_frame` may reach before `cutoff`: only a session with regular access
/// is limited, and a request without a time frame asks for everything.
pub fn may_include_old_data(level: SessionAccessLevel, time_frame: Option<TimeFrame>, cutoff: Timestamp) -> (res: bool)
    ensures
        res == (level == SessionAccessLevel::Regular && match time_frame {
            None => true,
            Some(tf) => before(tf.from, cutoff),
        }),
{
    match level {
        SessionAccessLevel::Extended => false,
        SessionAccessLevel::Regular => match time_frame {
            None => true,
            Some(tf) => tf.from.is_before(&cutoff),
        },
    }
}

/// How `humantime` writes a length of `secs` seconds.
pub uninterp spec fn humantime_text(secs: u64) -> Seq<char>;

/// Calls `humantime::format_duration` on `secs` seconds and writes the
/// result; the contract claims that it is the named text.
#[verifier::external_body]
fn format_seconds(secs: u64) -> (res: String)
    ensures
        res@ == humantime_text(secs),
{
    humantime::format_duration(std::time::Duration::from_secs(secs)).to_string()
}

/// The warning that a session with regular access may not reach older
/// transactions.
pub open spec fn old_data_warning_spec(name: Seq<char>, country: Seq<char>) -> Seq<char> {
    "session for "@ + name + " ("@ + country + ") is older than "@ + humantime_text(3600)
        + ", so access to transaction data older than "@ + decimal(90)
        + " days might be limited (see https://enablebanking.com/docs/faq/#how-far-back-transactions-history-can-be-fetched-for-an-account). If requests fail, reauthenticate the bank with `banker auth login` and try again for full access"@
}

/// The warning that a session with regular access may not reach older
/// transactions.
pub fn old_data_warning(name: &str, country: &str) -> (res: String)
    ensures
        res@ == old_data_warning_spec(name@, country@),
{
    let age = format_seconds(3600);
    let days = crate::text::usize_text(90);
    let mut s = "session for ".to_owned();
    s.append(name);
    s.append(" (");
    s.append(country);
    s.append(") is older than ");
    s.append(age.as_str());
    s.append(", so access to transaction data older than ");
    s.append(days.as_str());
    s.append(
        " days might be limited (see https://enablebanking.com/docs/faq/#how-far-back-transactions-history-can-be-fetched-for-an-account). If requests fail, reauthenticate the bank with `banker auth login` and try again for full access",
    );
    s
}

/// How `chrono` writes the day `day` (counted from 1970-01-01) in the form
/// `%Y-%m-%d`; `None` where the day lies outside its range of dates.
pub uninterp spec fn chrono_day_text(day: i64) -> Option<Seq<char>>;

/// Calls `chrono::TimeDelta::try_days`, `NaiveDate::checked_add_signed` on
/// 1970-01-01 and `NaiveDate::format("%Y-%m-%d")`; the contract claims that
/// the result is the named text.
#[verifier::external_body]
fn day_text(day: i64) -> (res: Option<String>)
    ensures
        match res {
            Some(t) => chrono_day_text(day) == Some(t@),
            None => chrono_day_text(day) is None,
        },
{
    let delta = chrono::TimeDelta::try_days(day)?;
    let date = chrono::NaiveDate::from_ymd_opt(1970, 1, 1)?.checked_add_signed(delta)?;
    Some(date.format("%Y-%m-%d").to_string())
}

/// The value of the `strategy` parameter.
pub open spec fn strategy_text(s: FetchStrategy) -> Seq<char> {
    match s {
        FetchStrategy::Default => "default"@,
        FetchStrategy::Longest => "longest"@,
    }
}

/// The query parameter `name` for the day `day`, when there is one: nothing
/// without a day, `None` where the day cannot be written.
pub open spec fn day_param(name: Seq<char>, day: Option<i64>) -> Option<Seq<(Seq<char>, Seq<char>)>> {
    match day {
        None => Some(seq![]),
        Some(d) => match chrono_day_text(d) {
            Some(t) => Some(seq![(name, t)]),
            None => None,
        },
    }
}

/// The query of a transactions request for `window`, continuing after
/// `continuation_key` when there is one: the strategy, the first and last
/// day where the window has them, and the continuation key; `None` where a
/// day cannot be written.
pub open spec fn transactions_query_spec(window: FetchWindow, continuation_key: Option<Seq<char>>) -> Option<
    Seq<(Seq<char>, Seq<char>)>,
> {
    match (day_param("date_from"@, window.date_from), day_param("date_to"@, window.date_to)) {
        (Some(f), Some(t)) => Some(seq![("strategy"@, strategy_text(window.strategy))] + f + t + match continuation_key {
            Some(k) => seq![("continuation_key"@, k)],
            None => seq![],
        }),
        _ => None,
    }
}

/// The texts of query parameters.
pub open spec fn params_view(v: Seq<(String, String)>) -> Seq<(Seq<char>, Seq<char>)> {
    v.map_values(|p: (String, String)| (p.0@, p.1@))
}

/// The view of an optional text.
pub open spec fn opt_string(o: Option<String>) -> Option<Seq<char>> {
    match o {
        Some(s) => Some(s@),
        None => None,
    }
}

/// The query of a transactions request for `window`, continuing after
/// `continuation_key` when there is one.
pub fn transactions_query(window: &FetchWindow, continuation_key: Option<String>) -> (res: Option<Vec<(String, String)>>)
    ensures
        match res {
            Some(q) => transactions_query_spec(*window, opt_string(continuation_key)) == Some(params_view(q@)),
            None => transactions_query_spec(*window, opt_string(continuation_key)) is None,
        },
{
    let mut q: Vec<(String, String)> = Vec::new();
    let strategy = match window.strategy {
        FetchStrategy::Default => "default",
        FetchStrategy::Longest => "longest",
    };
    q.push(("strategy".to_owned(), strategy.to_owned()));
    let ghost base = params_view(q@);
    assert(base =~= seq![("strategy"@, strategy_text(window.strategy))]);
    if let Some(d) = window.date_from {
        match day_text(d) {
            Some(t) => q.push(("date_from".to_owned(), t)),
            None => return None,
        }
    }
    let ghost with_from = params_view(q@);
    assert(day_param("date_from"@, window.date_from) == Some(with_from.skip(1))) by {
        assert(with_from.skip(1) =~= day_param("date_from"@, window.date_from)->Some_0);
    }
    if let Some(d) = window.date_to {
        match day_text(d) {
            Some(t) => q.push(("date_to".to_owned(), t)),
            None => {
                return None;
            },
        }
    }
    let ghost with_to = params_view(q@);
    assert(day_param("date_to"@, window.date_to) == Some(with_to.skip(with_from.len() as int))) by {
        assert(with_to.skip(with_from.len() as int) =~= day_param("date_to"@, window.date_to)->Some_0);
    }
    if let Some(k) = continuation_key {
        q.push(("continuation_key".to_owned(), k));
    }
    proof {
        let f = day_param("date_from"@, window.date_from)->Some_0;
        let t = day_param("date_to"@, window.date_to)->Some_0;
        assert(with_from =~= base + f);
        assert(with_to =~= base + f + t);
        assert(params_view(q@) =~= base + f + t + match opt_string(continuation_key) {
            Some(k) => seq![("continuation_key"@, k)],
            None => seq![],
        });
    }
    Some(q)
}

/// What a transactions download does next: send the request with this
/// query, stop because the last page has come, or stop because a day of the
/// window cannot be written (which no window of representable instants
/// gives).
pub enum PageStep {
    Request(Vec<(String, String)>),
    Finished,
    DayOutOfRange,
}

/// The step for a query that could or could not be written.
pub open spec fn request_step(q: Option<Seq<(Seq<char>, Seq<char>)>>, step: PageStep) -> bool {
    match q {
        Some(p) => step matches PageStep::Request(r) && params_view(r@) == p,
        None => step is DayOutOfRange,
    }
}

/// The first request of a transactions download for `window`.
pub fn first_page(window: &FetchWindow) -> (res: PageStep)
    ensures
        request_step(transactions_query_spec(*window, None), res),
{
    match transactions_query(window, None) {
        Some(q) => PageStep::Request(q),
        None => PageStep::DayOutOfRange,
    }
}

/// What follows a page that came with `continuation_key`: the request for
/// the next page while there is a key, else the end of the download.
pub fn after_page(window: &FetchWindow, continuation_key: Option<String>) -> (res: PageStep)
    ensures
        match continuation_key {
            None => res is Finished,
            Some(k) => request_step(transactions_query_spec(*window, Some(k@)), res),
        },
{
    match continuation_key {
        None => PageStep::Finished,
        Some(k) => match transactions_query(window, Some(k)) {
            Some(q) => PageStep::Request(q),
            None => PageStep::DayOutOfRange,
        },
    }
}

} // verus!
