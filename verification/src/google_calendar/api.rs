//! The Calendar API request for upcoming events.
use vstd::prelude::*;
use crate::text::{push_str, string_from_chars};
use crate::google_calendar::types::{GoogleCalendarConfig, GoogleCalendarEntryConfig};

verus! {

pub open spec fn is_ascii_alnum(b: u8) -> bool {
    (48 <= b <= 57) || (65 <= b <= 90) || (97 <= b <= 122)
}

pub open spec fn hex_digit(n: u8) -> char {
    if n < 10 {
        (48 + n) as char
    } else {
        (55 + n) as char
    }
}

/// One byte percent-encoded: ASCII letters and digits as they are, every
/// other byte as `%` and two upper-case hex digits.
pub open spec fn percent_byte(b: u8) -> Seq<char> {
    if is_ascii_alnum(b) {
        seq![b as char]
    } else {
        seq!['%', hex_digit(b / 16), hex_digit(b % 16)]
    }
}

pub open spec fn percent_encoded(bytes: Seq<u8>) -> Seq<char>
    decreases bytes.len(),
{
    if bytes.len() == 0 {
        seq![]
    } else {
        percent_encoded(bytes.drop_last()) + percent_byte(bytes.last())
    }
}

/// `percent_encoding::utf8_percent_encode` with `NON_ALPHANUMERIC`, written
/// out: the UTF-8 bytes of the text, each that is not an ASCII letter or
/// digit replaced by `%XX`.
#[verifier::external_body]
fn encode_path_segment(s: &str) -> (r: String)
    ensures
        r@ == percent_encoded(vstd::utf8::encode_utf8(s@)),
{
    percent_encoding::utf8_percent_encode(s, percent_encoding::NON_ALPHANUMERIC).to_string()
}

/// The events endpoint of a calendar.
pub fn events_endpoint(calendar: &GoogleCalendarEntryConfig) -> (r: String)
    ensures
        r@ == "https://www.googleapis.com/calendar/v3/calendars/"@ + percent_encoded(
            vstd::utf8::encode_utf8(calendar.calendar_id@),
        ) + "/events"@,
{
    let encoded = encode_path_segment(calendar.calendar_id.as_str());
    let mut out: Vec<char> = Vec::new();
    push_str(&mut out, "https://www.googleapis.com/calendar/v3/calendars/");
    push_str(&mut out, encoded.as_str());
    push_str(&mut out, "/events");
    string_from_chars(out.as_slice())
}

/// The hours looked ahead: the configured hours, at least one.
pub open spec fn lookahead_spec(gcal: GoogleCalendarConfig) -> int {
    if gcal.lookahead_hours < 1 {
        1
    } else {
        gcal.lookahead_hours as int
    }
}

/// The window of events asked for, in seconds since the Unix epoch: from
/// the present to the lookahead hours after it.
pub fn event_window(gcal: &GoogleCalendarConfig, now: i64) -> (r: (i64, i64))
    requires
        now + lookahead_spec(*gcal) * 3600 <= i64::MAX,
    ensures
        r.0 == now,
        r.1 == now + lookahead_spec(*gcal) * 3600,
{
    let hours: u64 = if gcal.lookahead_hours < 1 {
        1
    } else {
        gcal.lookahead_hours
    };
    let end: i128 = (now as i128) + (hours as i128) * 3600;
    (now, end as i64)
}

/// The most events asked for: the configured number, at least one.
pub fn max_results_param(gcal: &GoogleCalendarConfig) -> (r: u64)
    ensures
        r == if gcal.max_results < 1 { 1 } else { gcal.max_results },
{
    if gcal.max_results < 1 {
        1
    } else {
        gcal.max_results
    }
}

/// The calendars polled: those enabled with a calendar id that is not blank
/// (positions, in order).
pub open spec fn enabled_calendars_spec(cals: Seq<GoogleCalendarEntryConfig>, n: int) -> Seq<int>
    decreases n,
{
    if n <= 0 {
        seq![]
    } else {
        let rest = enabled_calendars_spec(cals, n - 1);
        if cals[n - 1].enabled && crate::text::trim(cals[n - 1].calendar_id@).len() > 0 {
            rest.push(n - 1)
        } else {
            rest
        }
    }
}

pub fn enabled_calendars(gcal: &GoogleCalendarConfig) -> (r: Vec<usize>)
    ensures
        r@.map_values(|i: usize| i as int) == enabled_calendars_spec(
            gcal.calendars@,
            gcal.calendars@.len() as int,
        ),
{
    let mut out: Vec<usize> = Vec::new();
    let mut i: usize = 0;
    while i < gcal.calendars.len()
        invariant
            i <= gcal.calendars@.len(),
            out@.map_values(|k: usize| k as int) == enabled_calendars_spec(gcal.calendars@, i as int),
        decreases gcal.calendars@.len() - i,
    {
        let c = &gcal.calendars[i];
        if c.enabled && !crate::text::trim_str(c.calendar_id.as_str()).as_str().is_empty() {
            let ghost before = out@;
            out.push(i);
            assert(out@.map_values(|k: usize| k as int) =~= before.map_values(|k: usize| k as int).push(
                i as int,
            ));
        }
        i = i + 1;
    }
    out
}

/// The pause between polls, in seconds: the configured pause, at least 30.
pub fn poll_interval(gcal: &GoogleCalendarConfig) -> (r: u64)
    ensures
        r == if gcal.poll_interval_seconds < 30 { 30 } else { gcal.poll_interval_seconds },
{
    if gcal.poll_interval_seconds < 30 {
        30
    } else {
        gcal.poll_interval_seconds
    }
}

} // verus!
