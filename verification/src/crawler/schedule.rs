//! When a crawler entry runs next.
use vstd::prelude::*;
use std::str::FromStr;
use crate::clock::{plus_seconds, time_plus_seconds, chrono_max_secs};
use crate::text::{
    chars_of, ends_with, ends_with_chars, parse_u64, parse_u64_spec, starts_with, starts_with_chars,
    trim, trim_chars,
};
use crate::timezone::AppTimeZone;

verus! {

/// Seconds between two passes of the crawler loop.
pub const FALLBACK_LOOP_SECONDS: u64 = 5;

/// How long a seen announcement is remembered, in seconds (seven days).
pub const SEEN_TTL_SECONDS: u64 = 604800;

/// What the `cron` crate says of an expression and a starting instant.
#[derive(PartialEq, Eq, Structural, Clone, Copy)]
pub enum CronNext {
    /// The expression does not parse.
    Invalid,
    /// The schedule has no time after the instant.
    Exhausted,
    /// The first time after the instant, in UTC seconds.
    Next(i64),
    /// chrono cannot hold the instant or the offset.
    Unrepresentable,
}

/// What `cron::Schedule::from_str(expr)` and `after(&local).next()` give, with
/// `local` the instant (UTC seconds) at the offset (seconds east of UTC).
pub uninterp spec fn cron_next(expr: Seq<char>, utc: i64, offset: i32) -> CronNext;

/// The `cron` crate: parse the expression, then the first time after an instant.
/// The search starts one second after the instant (`DateTime + 1s`, which
/// panics where chrono cannot hold that second), so a time found lies after it.
#[verifier::external_body]
fn cron_next_after(expr: &str, utc: i64, offset: i32) -> (r: CronNext)
    requires
        utc < chrono_max_secs(),
    ensures
        r == cron_next(expr@, utc, offset),
        r matches CronNext::Next(t) ==> t > utc,
{
    let Ok(schedule) = cron::Schedule::from_str(expr) else { return CronNext::Invalid };
    let Some(off) = chrono::FixedOffset::east_opt(offset) else { return CronNext::Unrepresentable };
    let Some(utc_dt) = chrono::DateTime::from_timestamp(utc, 0) else {
        return CronNext::Unrepresentable;
    };
    let local = utc_dt.with_timezone(&off);
    match schedule.after(&local).next() {
        Some(next) => CronNext::Next(next.timestamp()),
        None => CronNext::Exhausted,
    }
}

pub open spec fn sat_mul(a: u64, b: u64) -> u64 {
    if a * b > u64::MAX {
        u64::MAX
    } else {
        (a * b) as u64
    }
}

/// `@every 30s`, `@every 2m`, `@every 1h`: the interval in seconds.
pub open spec fn every_seconds_spec(expr: Seq<char>) -> Option<u64> {
    let v = trim(expr);
    if !starts_with(v, "@every "@) {
        None
    } else {
        let body = trim(v.skip(7));
        if ends_with(body, seq!['s']) {
            parse_u64_spec(trim(body.drop_last()))
        } else if ends_with(body, seq!['m']) {
            match parse_u64_spec(trim(body.drop_last())) {
                Some(m) => Some(sat_mul(m, 60)),
                None => None,
            }
        } else if ends_with(body, seq!['h']) {
            match parse_u64_spec(trim(body.drop_last())) {
                Some(h) => Some(sat_mul(h, 3600)),
                None => None,
            }
        } else {
            None
        }
    }
}

/// The delay actually used for an interval: at least five seconds, as `i64`
/// the way a `u64 as i64` cast gives it.
pub open spec fn delay_of(s: u64) -> i64 {
    (if s < 5 {
        5
    } else {
        s
    }) as i64
}

/// The interval of a schedule given as a number of seconds or as `@every`.
pub open spec fn interval_of(expr: Seq<char>) -> Option<u64> {
    match parse_u64_spec(trim(expr)) {
        Some(s) => Some(s),
        None => every_seconds_spec(expr),
    }
}

/// Whether the interval is so large that its cast to `i64` turns negative.
pub open spec fn interval_wraps(expr: Seq<char>) -> bool {
    interval_of(expr) matches Some(s) && s > i64::MAX
}

/// When an entry with this schedule runs next, counted from `now` (UTC
/// seconds): a number of seconds (`30`), an `@every` interval, or a cron
/// expression read in the zone; a minute later when the expression has no
/// next time or does not parse. `None` where chrono cannot hold the result,
/// or the second after `now` that a cron search starts from.
pub open spec fn next_run_spec(expr: Seq<char>, now: i64, tz: AppTimeZone) -> Option<i64> {
    match parse_u64_spec(trim(expr)) {
        Some(s) => time_plus_seconds(now, delay_of(s)),
        None => match every_seconds_spec(expr) {
            Some(s) => time_plus_seconds(now, delay_of(s)),
            None => match tz.offset_at_spec(now) {
                Some(off) => if time_plus_seconds(now, 1) is None {
                    None
                } else {
                    match cron_next(expr, now, off) {
                        CronNext::Next(t) => Some(t),
                        CronNext::Invalid | CronNext::Exhausted => time_plus_seconds(now, 60),
                        CronNext::Unrepresentable => None,
                    }
                },
                None => None,
            },
        },
    }
}

/// Reads an `@every` interval in seconds (see [`every_seconds_spec`]).
pub fn parse_every_seconds(expr: &str) -> (r: Option<u64>)
    ensures
        r == every_seconds_spec(expr@),
{
    let ec = chars_of(expr);
    let v = trim_chars(ec.as_slice());
    let prefix = chars_of("@every ");
    proof {
        reveal_strlit("@every ");
    }
    if !starts_with_chars(v.as_slice(), prefix.as_slice()) {
        return None;
    }
    let rest = vstd::slice::slice_subrange(v.as_slice(), 7, v.len());
    assert(rest@ == v@.skip(7));
    let body = trim_chars(rest);
    let s: [char; 1] = ['s'];
    let m: [char; 1] = ['m'];
    let h: [char; 1] = ['h'];
    assert(s@ =~= seq!['s']);
    assert(m@ =~= seq!['m']);
    assert(h@ =~= seq!['h']);
    if body.len() == 0 {
        return None;
    }
    let head = vstd::slice::slice_subrange(body.as_slice(), 0, body.len() - 1);
    assert(head@ == body@.drop_last());
    let num = trim_chars(head);
    if ends_with_chars(body.as_slice(), &s) {
        parse_u64(num.as_slice())
    } else if ends_with_chars(body.as_slice(), &m) {
        match parse_u64(num.as_slice()) {
            Some(x) => Some(saturating_mul(x, 60)),
            None => None,
        }
    } else if ends_with_chars(body.as_slice(), &h) {
        match parse_u64(num.as_slice()) {
            Some(x) => Some(saturating_mul(x, 3600)),
            None => None,
        }
    } else {
        None
    }
}

fn saturating_mul(a: u64, b: u64) -> (r: u64)
    ensures
        r == sat_mul(a, b),
{
    match a.checked_mul(b) {
        Some(x) => x,
        None => u64::MAX,
    }
}

fn delay(s: u64) -> (r: i64)
    ensures
        r == delay_of(s),
{
    let d = if s < 5 {
        5
    } else {
        s
    };
    #[verifier::truncate]
    (d as i64)
}

/// The next run time (see [`next_run_spec`]), or `None` where chrono cannot
/// hold it.
pub fn try_compute_next_run(cron_expr: &str, now: i64, tz: &AppTimeZone) -> (r: Option<i64>)
    ensures
        r == next_run_spec(cron_expr@, now, *tz),
        r matches Some(x) ==> (!interval_wraps(cron_expr@) ==> x > now),
        r matches Some(x) ==> (interval_of(cron_expr@) matches Some(s) ==> x == now + delay_of(s)),
{
    let ec = chars_of(cron_expr);
    let t = trim_chars(ec.as_slice());
    if let Some(seconds) = parse_u64(t.as_slice()) {
        return plus_seconds(now, delay(seconds));
    }
    if let Some(seconds) = parse_every_seconds(cron_expr) {
        return plus_seconds(now, delay(seconds));
    }
    match tz.utc_to_fixed_local(now) {
        Some(off) => {
            if plus_seconds(now, 1).is_none() {
                return None;
            }
            match cron_next_after(cron_expr, now, off) {
                CronNext::Next(next) => Some(next),
                CronNext::Invalid | CronNext::Exhausted => plus_seconds(now, 60),
                CronNext::Unrepresentable => None,
            }
        },
        None => None,
    }
}

/// The next run time of an entry (see [`next_run_spec`]).
pub fn compute_next_run(cron_expr: &str, now: i64, tz: &AppTimeZone) -> (r: i64)
    requires
        next_run_spec(cron_expr@, now, *tz) is Some,
    ensures
        Some(r) == next_run_spec(cron_expr@, now, *tz),
        !interval_wraps(cron_expr@) ==> r > now,
        interval_of(cron_expr@) matches Some(s) ==> r == now + delay_of(s),
{
    match try_compute_next_run(cron_expr, now, tz) {
        Some(t) => t,
        None => now,
    }
}

} // verus!
