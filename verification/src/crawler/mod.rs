//! The announcement crawler: reading list pages, scheduling, and composing
//! the Discord message for a new post.

pub mod parser;
pub mod types;
pub mod schedule;
pub mod message;
pub mod llm;
pub mod listing;
pub mod pipeline;
pub mod sim_hash;
