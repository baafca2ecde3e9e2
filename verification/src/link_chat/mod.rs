//! The LINE to Discord bridge: events, routes, signatures and the decisions
//! taken for each incoming event.
pub mod types;
pub mod line_api;
pub mod routing;
pub mod webhook;
pub mod cache;
