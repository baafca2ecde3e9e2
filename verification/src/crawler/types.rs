//! Posts found by the crawler and the language model's reading of them.
use vstd::prelude::*;

verus! {

/// A post as listed on an index page.
#[derive(Debug, Clone)]
pub struct CrawlerBasePost {
    pub id: String,
    pub category: String,
    pub source_name: String,
    pub title: String,
    pub url: String,
    /// The posting time, as RFC 3339 text.
    pub time: String,
    pub tags: Vec<String>,
}

/// A post with the content of its own page.
#[derive(Debug, Clone)]
pub struct CrawledPost {
    pub id: String,
    pub category: String,
    pub source_name: String,
    pub title: String,
    pub url: String,
    pub content: String,
    pub author_unit: String,
    pub attachments: Vec<String>,
    pub time: String,
    pub tags: Vec<String>,
}

/// A dated event the language model found in a post.
#[derive(Debug, Default)]
pub struct LlmCalendarItem {
    pub date: String,
    pub event: String,
}

/// The language model's structured reading of a post.
#[derive(Debug, Default)]
pub struct LlmResult {
    pub is_relevant: bool,
    pub title: String,
    pub summary: String,
    pub analysis: String,
    pub analysis_cn: String,
    pub calendar: Vec<LlmCalendarItem>,
    pub tags: Vec<String>,
}

} // verus!
