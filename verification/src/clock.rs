//! Points in time as plain numbers, and the calls into `chrono` that read
//! and write their textual forms.
use vstd::prelude::*;
use std::fmt::Write;
use chrono::Datelike;

verus! {

/// What `chrono::DateTime::parse_from_rfc3339` gives for a text, as
/// (seconds since the Unix epoch, nanoseconds, offset east of UTC in seconds).
pub uninterp spec fn rfc3339_instant(s: Seq<char>) -> Option<(i64, u32, i32)>;

/// What formatting an instant (seconds, nanoseconds, offset in seconds) with a
/// strftime pattern gives in `chrono`; `None` where chrono refuses the instant,
/// the offset or the pattern.
pub uninterp spec fn strftime_text(secs: i64, nanos: u32, offset: i32, fmt: Seq<char>) -> Option<
    Seq<char>,
>;

/// `chrono::DateTime::parse_from_rfc3339`, read out as plain numbers.
#[verifier::external_body]
pub(crate) fn parse_rfc3339(s: &str) -> (r: Option<(i64, u32, i32)>)
    ensures
        r == rfc3339_instant(s@),
{
    match chrono::DateTime::parse_from_rfc3339(s) {
        Ok(dt) => Some((dt.timestamp(), dt.timestamp_subsec_nanos(), dt.offset().local_minus_utc())),
        Err(_) => None,
    }
}

/// `chrono`'s `DateTime::format` for the instant rebuilt from plain numbers;
/// an error of the formatter (an invalid pattern) gives `None`.
#[verifier::external_body]
pub(crate) fn format_instant(secs: i64, nanos: u32, offset: i32, fmt: &str) -> (r: Option<String>)
    ensures
        match r {
            Some(s) => strftime_text(secs, nanos, offset, fmt@) == Some(s@),
            None => strftime_text(secs, nanos, offset, fmt@) is None,
        },
{
    let off = chrono::FixedOffset::east_opt(offset)?;
    let dt = chrono::DateTime::from_timestamp(secs, nanos)?.with_timezone(&off);
    let mut out = String::new();
    write!(out, "{}", dt.format(fmt)).ok()?;
    Some(out)
}

/// The RFC 3339 text `chrono` writes for an instant given in milliseconds
/// since the Unix epoch: UTC with `Z`, and only as many fraction digits as
/// the instant needs; `None` outside chrono's range.
pub uninterp spec fn rfc3339_of_millis(millis: i64) -> Option<Seq<char>>;

/// `chrono::DateTime::<Utc>::from_timestamp_millis`, written with
/// `to_rfc3339_opts(SecondsFormat::AutoSi, true)`: the text serde writes for a
/// `DateTime<Utc>`.
#[verifier::external_body]
pub(crate) fn utc_millis_text(millis: i64) -> (r: Option<String>)
    ensures
        match r {
            Some(s) => rfc3339_of_millis(millis) == Some(s@),
            None => rfc3339_of_millis(millis) is None,
        },
{
    match chrono::DateTime::<chrono::Utc>::from_timestamp_millis(millis) {
        Some(d) => Some(d.to_rfc3339_opts(chrono::SecondsFormat::AutoSi, true)),
        None => None,
    }
}

/// What `chrono::NaiveDateTime::parse_from_str` gives for a text and a pattern,
/// as seconds since the epoch of the wall-clock time read as UTC.
pub uninterp spec fn naive_datetime_parse(s: Seq<char>, fmt: Seq<char>) -> Option<i64>;

/// What `chrono::NaiveDate::parse_from_str` gives for a text and a pattern,
/// as chrono's day number (`num_days_from_ce`: 1 January of year 1 is day 1).
pub uninterp spec fn naive_date_parse(s: Seq<char>, fmt: Seq<char>) -> Option<i32>;

/// `chrono::NaiveDateTime::parse_from_str`, read out as a number.
#[verifier::external_body]
pub(crate) fn parse_naive_datetime(s: &str, fmt: &str) -> (r: Option<i64>)
    ensures
        r == naive_datetime_parse(s@, fmt@),
{
    chrono::NaiveDateTime::parse_from_str(s, fmt).ok().map(|dt| dt.and_utc().timestamp())
}

/// `chrono::NaiveDate::parse_from_str`, read out as a day number.
#[verifier::external_body]
pub(crate) fn parse_naive_date(s: &str, fmt: &str) -> (r: Option<i32>)
    ensures
        r == naive_date_parse(s@, fmt@),
{
    chrono::NaiveDate::parse_from_str(s, fmt).ok().map(|d| d.num_days_from_ce())
}

/// chrono's day number of 1 January 1970.
pub const UNIX_EPOCH_DAY: i64 = 719163;

/// Midnight at the start of a day (chrono day number), in seconds since the epoch.
pub open spec fn midnight_spec(day: i32) -> int {
    (day - UNIX_EPOCH_DAY) * 86400
}

pub fn midnight(day: i32) -> (r: i64)
    ensures
        r == midnight_spec(day),
{
    ((day as i64) - UNIX_EPOCH_DAY) * 86400
}

/// The first second chrono can hold as a `DateTime<Utc>`: midnight starting
/// 1 January of year -262143, its earliest date.
pub open spec fn chrono_min_secs() -> int {
    -8334601228800
}

/// The last second chrono can hold as a `DateTime<Utc>`: 23:59:59 on
/// 31 December 262142, its latest date.
pub open spec fn chrono_max_secs() -> int {
    8210266876799
}

/// Whether chrono can hold an instant given in seconds since the epoch.
pub open spec fn secs_in_range(t: int) -> bool {
    chrono_min_secs() <= t <= chrono_max_secs()
}

/// What chrono gives for an instant (seconds since the epoch) moved by a number
/// of seconds (`TimeDelta::try_seconds` and `checked_add_signed`): the sum,
/// where chrono holds both the instant and the sum. (Where it holds both,
/// the number of seconds is far inside `TimeDelta`'s range.)
pub open spec fn time_plus_seconds(t: i64, secs: i64) -> Option<i64> {
    if secs_in_range(t as int) && secs_in_range(t + secs) {
        Some((t + secs) as i64)
    } else {
        None
    }
}

/// `t + TimeDelta::seconds(secs)` in chrono, without its panics: chrono's
/// `from_timestamp`, `TimeDelta::try_seconds` and `checked_add_signed`.
#[verifier::external_body]
pub(crate) fn plus_seconds(t: i64, secs: i64) -> (r: Option<i64>)
    ensures
        r == time_plus_seconds(t, secs),
{
    let dt = chrono::DateTime::from_timestamp(t, 0)?;
    let d = chrono::TimeDelta::try_seconds(secs)?;
    dt.checked_add_signed(d).map(|x| x.timestamp())
}

} // verus!
