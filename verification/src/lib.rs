//! Verified core of the class chat bot: text handling, the template engine,
//! time parsing, configuration merging, identity binding and message routing.

pub mod text;
pub mod clock;
pub mod template;
pub mod timezone;
pub mod crawler;
pub mod config;
pub mod app_config;
pub mod toml_merge;
pub mod toml_doc;
pub mod discord;
pub mod link_chat;
pub mod google_calendar;
pub mod leader_election;
pub mod config_file;
pub mod config_docs;
