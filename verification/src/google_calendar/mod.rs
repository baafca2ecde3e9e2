//! Google Calendar notifications: which calendars are polled, what an
//! upcoming event is announced as, and when it counts as announced.
pub mod types;
pub mod notify;
pub mod api;
pub mod auth;
