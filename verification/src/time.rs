//! Instants and lengths of time, the time frame that a command asks for, and
//! the parsing of the `--from`, `--to` and `--last` options.

use vstd::prelude::*;
use crate::text::concat2;

verus! {

/// An instant in UTC: whole seconds since 1970-01-01T00:00:00Z and the
/// nanoseconds past them (up to two seconds' worth during a leap second).
#[derive(Clone, Copy, Debug, PartialEq, Eq, Structural)]
pub struct Timestamp {
    pub secs: i64,
    pub nanos: u32,
}

/// `a` comes strictly before `b`.
pub open spec fn before(a: Timestamp, b: Timestamp) -> bool {
    a.secs < b.secs || (a.secs == b.secs && a.nanos < b.nanos)
}

impl Timestamp {
    /// Whether `self` comes strictly before `other`.
    pub fn is_before(&self, other: &Timestamp) -> (res: bool)
        ensures
            res == before(*self, *other),
    {
        self.secs < other.secs || (self.secs == other.secs && self.nanos < other.nanos)
    }

    /// The number of the UTC calendar day that holds the instant, counted from
    /// 1970-01-01 (day 0).
    pub fn day_number(&self) -> (res: i64)
        ensures
            res == day_of(*self),
    {
        let d = self.secs / 86400;
        if self.secs % 86400 < 0 {
            d - 1
        } else {
            d
        }
    }
}

/// The number of the UTC calendar day that holds `t`.
pub open spec fn day_of(t: Timestamp) -> int {
    t.secs as int / 86400
}

/// The instant `t` in nanoseconds since the epoch.
pub open spec fn instant_nanos(t: Timestamp) -> int {
    t.secs * 1_000_000_000 + t.nanos
}

/// `t` is not inside a leap second: its nanoseconds stay below one second.
pub open spec fn no_leap(t: Timestamp) -> bool {
    t.nanos < 1_000_000_000
}

/// Outside leap seconds, coming earlier is having fewer nanoseconds since the
/// epoch.
pub proof fn lemma_before_is_fewer_nanos(a: Timestamp, b: Timestamp)
    requires
        no_leap(a),
        no_leap(b),
    ensures
        before(a, b) <==> instant_nanos(a) < instant_nanos(b),
{
    assert(a.secs < b.secs ==> instant_nanos(a) < instant_nanos(b)) by (nonlinear_arith)
        requires
            a.nanos < 1_000_000_000,
            instant_nanos(a) == a.secs * 1_000_000_000 + a.nanos,
            instant_nanos(b) == b.secs * 1_000_000_000 + b.nanos,
    ;
    assert(b.secs < a.secs ==> instant_nanos(b) < instant_nanos(a)) by (nonlinear_arith)
        requires
            b.nanos < 1_000_000_000,
            instant_nanos(a) == a.secs * 1_000_000_000 + a.nanos,
            instant_nanos(b) == b.secs * 1_000_000_000 + b.nanos,
    ;
}

/// A signed length of time: whole seconds and the nanoseconds beyond them,
/// both with the same sign.
#[derive(Clone, Copy, Debug, PartialEq, Eq, Structural)]
pub struct Span {
    pub secs: i64,
    pub nanos: i32,
}

/// The length `d` in nanoseconds.
pub open spec fn span_nanos(d: Span) -> int {
    d.secs * 1_000_000_000 + d.nanos
}

/// What `chrono` gives for the instant `(secs, nanos)` minus the length
/// `(d_secs, d_nanos)`; `None` where either cannot be represented or the
/// difference is out of range.
pub uninterp spec fn chrono_checked_sub(secs: i64, nanos: u32, d_secs: i64, d_nanos: i32) -> Option<(i64, u32)>;

/// What `chrono` gives for the instant `(secs, nanos)` plus the length
/// `(d_secs, d_nanos)`; `None` where either cannot be represented or the
/// sum is out of range.
pub uninterp spec fn chrono_checked_add(secs: i64, nanos: u32, d_secs: i64, d_nanos: i32) -> Option<(i64, u32)>;

/// What `chrono` gives for the length of time from the instant `(b_secs,
/// b_nanos)` to `(a_secs, a_nanos)`; `None` where either cannot be represented.
pub uninterp spec fn chrono_duration_since(a_secs: i64, a_nanos: u32, b_secs: i64, b_nanos: u32) -> Option<(i64, i32)>;

/// What `chrono` parses `text` to as a `DateTime<Utc>` (RFC 3339 and close
/// variants), where it parses.
pub uninterp spec fn chrono_parse_datetime(text: Seq<char>) -> Option<(i64, u32)>;

/// What `chrono` parses `text` to as a `NaiveDate` in the format `format`,
/// taken at the time of day `hour:minute:second` in UTC, where it parses.
pub uninterp spec fn chrono_parse_date_at(text: Seq<char>, format: Seq<char>, hour: u32, minute: u32, second: u32) -> Option<(i64, u32)>;

/// What `duration_str::parse_chrono` gives for `text`: a length of time, or its
/// error text.
pub uninterp spec fn duration_str_parse(text: Seq<char>) -> Result<(i64, i32), Seq<char>>;

/// Calls `chrono::Utc::now`. The contract claims only what holds of every
/// instant it gives: it reads the system clock as seconds since the epoch
/// (it panics on a clock before 1970) and the nanoseconds of the second, and
/// the instant lies in `chrono`'s range of dates (years -262144 to 262143),
/// well within ten trillion seconds of the epoch.
#[verifier::external_body]
pub(crate) fn utc_now() -> (res: Timestamp)
    ensures
        0 <= res.secs < 10_000_000_000_000,
        no_leap(res),
{
    let now = chrono::Utc::now();
    Timestamp { secs: now.timestamp(), nanos: now.timestamp_subsec_nanos() }
}

/// Calls `chrono::DateTime::checked_sub_signed` on `t` and `d` (converted with
/// `DateTime::from_timestamp`, `TimeDelta::try_seconds`, `TimeDelta::nanoseconds`
/// and `TimeDelta::checked_add`); the contract claims that the result is the
/// named difference.
#[verifier::external_body]
fn checked_sub(t: Timestamp, d: Span) -> (res: Option<Timestamp>)
    ensures
        match res {
            Some(r) => chrono_checked_sub(t.secs, t.nanos, d.secs, d.nanos) == Some((r.secs, r.nanos)),
            None => chrono_checked_sub(t.secs, t.nanos, d.secs, d.nanos) is None,
        },
        no_leap(t) ==> (res matches Some(r) ==> no_leap(r) && instant_nanos(r) == instant_nanos(t) - span_nanos(d)),
{
    let instant = chrono::DateTime::<chrono::Utc>::from_timestamp(t.secs, t.nanos)?;
    let delta = chrono::TimeDelta::try_seconds(d.secs)?.checked_add(&chrono::TimeDelta::nanoseconds(d.nanos as i64))?;
    let r = instant.checked_sub_signed(delta)?;
    Some(Timestamp { secs: r.timestamp(), nanos: r.timestamp_subsec_nanos() })
}

/// Calls `chrono::DateTime::checked_add_signed` on `t` and `d` (converted as
/// for `checked_sub`); the contract claims that the result is the named sum.
#[verifier::external_body]
fn checked_add(t: Timestamp, d: Span) -> (res: Option<Timestamp>)
    ensures
        match res {
            Some(r) => chrono_checked_add(t.secs, t.nanos, d.secs, d.nanos) == Some((r.secs, r.nanos)),
            None => chrono_checked_add(t.secs, t.nanos, d.secs, d.nanos) is None,
        },
        no_leap(t) ==> (res matches Some(r) ==> no_leap(r) && instant_nanos(r) == instant_nanos(t) + span_nanos(d)),
{
    let instant = chrono::DateTime::<chrono::Utc>::from_timestamp(t.secs, t.nanos)?;
    let delta = chrono::TimeDelta::try_seconds(d.secs)?.checked_add(&chrono::TimeDelta::nanoseconds(d.nanos as i64))?;
    let r = instant.checked_add_signed(delta)?;
    Some(Timestamp { secs: r.timestamp(), nanos: r.timestamp_subsec_nanos() })
}

/// Calls `chrono::DateTime::signed_duration_since` on `a` and `b` (converted
/// with `DateTime::from_timestamp`); the contract claims that the result is the
/// named length of time.
#[verifier::external_body]
fn duration_since(a: Timestamp, b: Timestamp) -> (res: Option<Span>)
    ensures
        match res {
            Some(d) => chrono_duration_since(a.secs, a.nanos, b.secs, b.nanos) == Some((d.secs, d.nanos)),
            None => chrono_duration_since(a.secs, a.nanos, b.secs, b.nanos) is None,
        },
        no_leap(a) && no_leap(b) ==> (res matches Some(d) ==> span_nanos(d) == instant_nanos(a) - instant_nanos(b)),
{
    let later = chrono::DateTime::<chrono::Utc>::from_timestamp(a.secs, a.nanos)?;
    let earlier = chrono::DateTime::<chrono::Utc>::from_timestamp(b.secs, b.nanos)?;
    let d = later.signed_duration_since(earlier);
    Some(Span { secs: d.num_seconds(), nanos: d.subsec_nanos() })
}

/// Calls `str::parse::<chrono::DateTime<chrono::Utc>>`; the contract claims
/// that the result is the named parse.
#[verifier::external_body]
fn parse_datetime(text: &str) -> (res: Option<Timestamp>)
    ensures
        match res {
            Some(r) => chrono_parse_datetime(text@) == Some((r.secs, r.nanos)),
            None => chrono_parse_datetime(text@) is None,
        },
{
    let r = text.parse::<chrono::DateTime<chrono::Utc>>().ok()?;
    Some(Timestamp { secs: r.timestamp(), nanos: r.timestamp_subsec_nanos() })
}

/// Calls `chrono::NaiveDate::parse_from_str` with `format`, then
/// `NaiveDate::and_hms_opt` and `NaiveDateTime::and_utc`; the contract claims
/// that the result is the named parse.
#[verifier::external_body]
fn parse_date_at(text: &str, format: &str, hour: u32, minute: u32, second: u32) -> (res: Option<Timestamp>)
    ensures
        match res {
            Some(r) => chrono_parse_date_at(text@, format@, hour, minute, second) == Some((r.secs, r.nanos)),
            None => chrono_parse_date_at(text@, format@, hour, minute, second) is None,
        },
{
    let date = chrono::NaiveDate::parse_from_str(text, format).ok()?;
    let r = date.and_hms_opt(hour, minute, second)?.and_utc();
    Some(Timestamp { secs: r.timestamp(), nanos: r.timestamp_subsec_nanos() })
}

/// Calls `duration_str::parse_chrono`; the contract claims that the result is
/// the named parse (the length as `TimeDelta::num_seconds` and
/// `TimeDelta::subsec_nanos`, or the error text).
#[verifier::external_body]
fn parse_duration(text: &str) -> (res: Result<Span, String>)
    ensures
        match res {
            Ok(d) => duration_str_parse(text@) == Ok::<(i64, i32), Seq<char>>((d.secs, d.nanos)),
            Err(e) => duration_str_parse(text@) == Err::<(i64, i32), Seq<char>>(e@),
        },
{
    let d = duration_str::parse_chrono(text)?;
    Ok(Span { secs: d.num_seconds(), nanos: d.subsec_nanos() })
}

/// How `chrono` writes the instant `(secs, nanos)` (`2025-01-31 12:00:00 UTC`);
/// nothing for an instant that it cannot represent.
pub uninterp spec fn chrono_display(secs: i64, nanos: u32) -> Seq<char>;

/// Calls `chrono::DateTime::from_timestamp` and writes the instant with its
/// `Display` (an instant that `chrono` cannot represent gives an empty
/// text); the contract claims that the result is the named text.
#[verifier::external_body]
pub(crate) fn utc_text(t: Timestamp) -> (res: String)
    ensures
        res@ == chrono_display(t.secs, t.nanos),
{
    match chrono::DateTime::<chrono::Utc>::from_timestamp(t.secs, t.nanos) {
        Some(d) => d.to_string(),
        None => String::new(),
    }
}

/// The instant `t` minus the length `d`, where `chrono` can represent it.
pub fn minus(t: Timestamp, d: Span) -> (res: Option<Timestamp>)
    ensures
        match res {
            Some(r) => chrono_checked_sub(t.secs, t.nanos, d.secs, d.nanos) == Some((r.secs, r.nanos)),
            None => chrono_checked_sub(t.secs, t.nanos, d.secs, d.nanos) is None,
        },
        no_leap(t) ==> (res matches Some(r) ==> no_leap(r) && instant_nanos(r) == instant_nanos(t) - span_nanos(d)),
{
    checked_sub(t, d)
}

/// The instant `t` plus the length `d`, where `chrono` can represent it.
pub fn plus(t: Timestamp, d: Span) -> (res: Option<Timestamp>)
    ensures
        match res {
            Some(r) => chrono_checked_add(t.secs, t.nanos, d.secs, d.nanos) == Some((r.secs, r.nanos)),
            None => chrono_checked_add(t.secs, t.nanos, d.secs, d.nanos) is None,
        },
        no_leap(t) ==> (res matches Some(r) ==> no_leap(r) && instant_nanos(r) == instant_nanos(t) + span_nanos(d)),
{
    checked_add(t, d)
}

/// The length of time from `b` to `a`, where `chrono` can represent both.
pub fn since(a: Timestamp, b: Timestamp) -> (res: Option<Span>)
    ensures
        match res {
            Some(d) => chrono_duration_since(a.secs, a.nanos, b.secs, b.nanos) == Some((d.secs, d.nanos)),
            None => chrono_duration_since(a.secs, a.nanos, b.secs, b.nanos) is None,
        },
        no_leap(a) && no_leap(b) ==> (res matches Some(d) ==> span_nanos(d) == instant_nanos(a) - instant_nanos(b)),
{
    duration_since(a, b)
}

/// Whether the length `d` is shorter than `other`.
pub fn span_less(d: Span, other: Span) -> (res: bool)
    ensures
        res == (span_nanos(d) < span_nanos(other)),
{
    let a: i128 = d.secs as i128 * 1_000_000_000i128 + d.nanos as i128;
    let b: i128 = other.secs as i128 * 1_000_000_000i128 + other.nanos as i128;
    a < b
}

/// A period of time: from `from` to `to`.
#[derive(Clone, Copy, Debug, PartialEq, Eq, Structural)]
pub struct TimeFrame {
    pub from: Timestamp,
    pub to: Timestamp,
}

/// The time-frame options of a command: `--all`, `--from`/`--to`, `--last`.
#[derive(Clone, Copy, Debug, PartialEq, Eq, Structural)]
pub struct TimeFrameArgs {
    pub all: bool,
    pub from: Option<Timestamp>,
    pub to: Option<Timestamp>,
    pub last: Option<Span>,
}

/// The text of a `--last` length that reaches before what can be represented.
pub open spec fn out_of_range_message() -> Seq<char> {
    "duration is out of range"@
}

/// The text of a `--from` after `--to`.
pub open spec fn reversed_frame_message() -> Seq<char> {
    "--from must be on or before --to"@
}

/// The time frame that the options `args` ask for at the instant `now`:
/// none for `--all`, no options or an incomplete `--from`/`--to`; the length
/// `--last` up to `now`; or `--from` to `--to`, which must not be reversed.
pub open spec fn time_frame_spec(args: Option<TimeFrameArgs>, now: Timestamp) -> Result<Option<TimeFrame>, Seq<char>> {
    match args {
        None => Ok(None),
        Some(a) => if a.all {
            Ok(None)
        } else if a.last is Some {
            let d = a.last->Some_0;
            match chrono_checked_sub(now.secs, now.nanos, d.secs, d.nanos) {
                Some((s, n)) => Ok(Some(TimeFrame { from: Timestamp { secs: s, nanos: n }, to: now })),
                None => Err(out_of_range_message()),
            }
        } else if a.from is Some && a.to is Some {
            if before(a.to->Some_0, a.from->Some_0) {
                Err(reversed_frame_message())
            } else {
                Ok(Some(TimeFrame { from: a.from->Some_0, to: a.to->Some_0 }))
            }
        } else {
            Ok(None)
        },
    }
}

/// The view of a result whose error is a `String`.
pub open spec fn text_result<T>(r: Result<T, String>) -> Result<T, Seq<char>> {
    match r {
        Ok(v) => Ok(v),
        Err(e) => Err(e@),
    }
}

/// The options ask for a positive length `--last` (and not for `--all`).
pub open spec fn asks_positive_last(args: Option<TimeFrameArgs>) -> bool {
    match args {
        Some(a) => !a.all && match a.last {
            Some(d) => span_nanos(d) > 0,
            None => false,
        },
        None => false,
    }
}

/// The time frame that the options `args` ask for at the instant `now`.
pub fn time_frame_at(args: Option<TimeFrameArgs>, now: Timestamp) -> (res: Result<Option<TimeFrame>, String>)
    ensures
        text_result(res) == time_frame_spec(args, now),
        no_leap(now) && asks_positive_last(args) ==> (res matches Ok(Some(tf)) ==> tf.to == now && before(
            tf.from,
            tf.to,
        )),
{
    match args {
        None => Ok(None),
        Some(a) => {
            if a.all {
                Ok(None)
            } else if let Some(d) = a.last {
                match minus(now, d) {
                    Some(from) => {
                        proof {
                            if no_leap(now) && span_nanos(d) > 0 {
                                lemma_before_is_fewer_nanos(from, now);
                            }
                        }
                        Ok(Some(TimeFrame { from, to: now }))
                    },
                    None => Err("duration is out of range".to_owned()),
                }
            } else {
                match (a.from, a.to) {
                    (Some(from), Some(to)) => {
                        if to.is_before(&from) {
                            Err("--from must be on or before --to".to_owned())
                        } else {
                            Ok(Some(TimeFrame { from, to }))
                        }
                    },
                    _ => Ok(None),
                }
            }
        },
    }
}

/// The time frame that the options `args` ask for now.
pub fn time_frame_from_args(args: Option<TimeFrameArgs>) -> (res: Result<Option<TimeFrame>, String>)
    ensures
        exists|now: Timestamp| text_result(res) == time_frame_spec(args, now),
        asks_positive_last(args) ==> (res matches Ok(Some(tf)) ==> before(tf.from, tf.to)),
{
    let now = utc_now();
    let res = time_frame_at(args, now);
    assert(text_result(res) == time_frame_spec(args, now));
    res
}

/// The text of an option value that is neither a timestamp nor a date.
pub open spec fn invalid_timestamp_message(text: Seq<char>) -> Seq<char> {
    "Invalid timestamp '"@ + text
        + "'. Expected RFC 3339 / ISO timestamp (e.g., 2026-07-10T14:30:00Z) or a plain date (e.g., 2026-07-10)."@
}

/// The instant that a `--from` or `--to` value denotes: a timestamp as
/// `chrono` reads it, else the start (00:00:00 UTC) of a `YYYY-MM-DD` date.
pub open spec fn utc_date_spec(text: Seq<char>) -> Result<Timestamp, Seq<char>> {
    match chrono_parse_datetime(text) {
        Some((s, n)) => Ok(Timestamp { secs: s, nanos: n }),
        None => match chrono_parse_date_at(text, "%Y-%m-%d"@, 0, 0, 0) {
            Some((s, n)) => Ok(Timestamp { secs: s, nanos: n }),
            None => Err(invalid_timestamp_message(text)),
        },
    }
}

/// Reads a `--from` or `--to` value.
pub fn parse_utc_date(text: &str) -> (res: Result<Timestamp, String>)
    ensures
        text_result(res) == utc_date_spec(text@),
{
    if let Some(t) = parse_datetime(text) {
        return Ok(t);
    }
    if let Some(t) = parse_date_at(text, "%Y-%m-%d", 0, 0, 0) {
        return Ok(t);
    }
    let a = concat2("Invalid timestamp '", text);
    Err(concat2(
        a.as_str(),
        "'. Expected RFC 3339 / ISO timestamp (e.g., 2026-07-10T14:30:00Z) or a plain date (e.g., 2026-07-10).",
    ))
}

/// The text of a `--last` length that is not positive.
pub open spec fn non_positive_message() -> Seq<char> {
    "duration must be positive"@
}

/// The length that a `--last` value denotes, which must be positive.
pub open spec fn clap_duration_spec(text: Seq<char>) -> Result<Span, Seq<char>> {
    match duration_str_parse(text) {
        Err(e) => Err(e),
        Ok((s, n)) => if s * 1_000_000_000 + n <= 0 {
            Err(non_positive_message())
        } else {
            Ok(Span { secs: s, nanos: n })
        },
    }
}

/// Reads a `--last` value.
pub fn parse_clap_duration(text: &str) -> (res: Result<Span, String>)
    ensures
        text_result(res) == clap_duration_spec(text@),
{
    let d = match parse_duration(text) {
        Ok(d) => d,
        Err(e) => return Err(e),
    };
    let total: i128 = d.secs as i128 * 1_000_000_000i128 + d.nanos as i128;
    if total <= 0 {
        return Err("duration must be positive".to_owned());
    }
    Ok(d)
}

} // verus!
