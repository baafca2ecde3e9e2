//! Calendar settings and events.
use vstd::prelude::*;
use crate::config::DiscordNotificationConfig;
use crate::clock::{rfc3339_instant, strftime_text, parse_rfc3339, format_instant};

verus! {

/// Calendar polling settings.
#[derive(Clone, Debug)]
pub struct GoogleCalendarConfig {
    pub enabled: bool,
    pub service_account_json_path: String,
    pub poll_interval_seconds: u64,
    pub lookahead_hours: u64,
    pub max_results: u64,
    /// Notification targets of every calendar without its own.
    pub notify_targets: Vec<String>,
    pub calendars: Vec<GoogleCalendarEntryConfig>,
}

/// One polled calendar.
#[derive(Clone, Debug)]
pub struct GoogleCalendarEntryConfig {
    pub name: String,
    pub calendar_id: String,
    pub enabled: bool,
    /// This calendar's notification targets; empty for the shared ones.
    pub notify_targets: Vec<String>,
}

/// A notification target as the calendar reads it.
#[derive(Clone, Debug)]
pub struct NotifyTarget {
    pub enabled: bool,
    pub discord: DiscordNotificationConfig,
}

/// An access token and when it expires (seconds since the Unix epoch).
#[derive(Clone, Debug)]
pub struct CachedGoogleToken {
    pub access_token: String,
    pub expires_at: i64,
}

/// An event as the Calendar API lists it.
#[derive(Clone, Debug)]
pub struct GoogleCalendarEvent {
    pub id: Option<String>,
    pub summary: Option<String>,
    pub description: Option<String>,
    pub location: Option<String>,
    pub html_link: Option<String>,
    pub start: GoogleCalendarEventDate,
    pub end: Option<GoogleCalendarEventDate>,
}

/// A start or end: a time for timed events, a date for all-day events.
#[derive(Clone, Debug)]
pub struct GoogleCalendarEventDate {
    pub date_time: Option<String>,
    pub date: Option<String>,
}

pub open spec fn opt_text(o: Option<String>) -> Option<Seq<char>> {
    match o {
        Some(s) => Some(s@),
        None => None,
    }
}

/// The key an event's start is remembered by: its time, else its date,
/// else nothing.
pub open spec fn date_key(d: GoogleCalendarEventDate) -> Seq<char> {
    match d.date_time {
        Some(v) => v@,
        None => match d.date {
            Some(v) => v@,
            None => seq![],
        },
    }
}

/// How a start or end is shown: a time as `YYYY-MM-DD HH:MM UTC` when it
/// reads as RFC 3339 (as written otherwise); a date as written.
pub open spec fn display_spec(d: GoogleCalendarEventDate) -> Option<Seq<char>> {
    match d.date_time {
        Some(v) => match rfc3339_instant(v@) {
            Some(t) => match strftime_text(t.0, t.1, 0, "%Y-%m-%d %H:%M UTC"@) {
                Some(s) => Some(s),
                None => Some(v@),
            },
            None => Some(v@),
        },
        None => opt_text(d.date),
    }
}

impl GoogleCalendarEventDate {
    pub fn key(&self) -> (r: String)
        ensures
            r@ == date_key(*self),
    {
        match &self.date_time {
            Some(v) => v.clone(),
            None => match &self.date {
                Some(v) => v.clone(),
                None => String::new(),
            },
        }
    }

    pub fn display_text(&self) -> (r: Option<String>)
        ensures
            opt_text(r) == display_spec(*self),
    {
        match &self.date_time {
            Some(v) => match parse_rfc3339(v.as_str()) {
                Some((secs, nanos, _)) => match format_instant(secs, nanos, 0, "%Y-%m-%d %H:%M UTC") {
                    Some(s) => Some(s),
                    None => Some(v.clone()),
                },
                None => Some(v.clone()),
            },
            None => match &self.date {
                Some(d) => Some(d.clone()),
                None => None,
            },
        }
    }
}

} // verus!
