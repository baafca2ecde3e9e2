//! The request put to the language model for a crawled post.
use vstd::prelude::*;
use crate::text::{join, join_strings, string_views, push_str, string_from_chars};
use crate::clock::{strftime_text, format_instant};
use crate::crawler::types::CrawledPost;

verus! {

/// The instructions before the reference date.
pub open spec fn prompt_head() -> Seq<char> {
    "# ROLE\n你是校園資訊架構師。你的任務是將公告內容精煉為結構化 JSON，並提供易讀的深度分析。\n\n# CONTEXT\n- 基準日期："@
}

/// The text between the reference date and the topics of interest.
pub open spec fn prompt_topics() -> Seq<char> {
    "\n- 關注範疇（知識庫）："@
}

/// The rules and the output format, up to the data.
pub open spec fn prompt_rules() -> Seq<char> {
    "\n\n# RULES\n1. **日期標準化**：所有日期轉為 \"YYYY-MM-DD\"。\n2. **智慧判定 (is_relevant)**：僅當公告主旨或主要對象與知識庫直接相關時為 true。\n3. **靈活解析 (analysis)**：\n\t - 此欄位為「單一字串」。請使用 Markdown 換行與條列符號排版。\n\t - **不要寫死結構**：請根據公告類型自動整理。例如：\n\t - 若為「獎助學金」：整理對象、文件、流程。\n\t - 若為「行政/停水/停電」：整理受影響範圍、時間、配套措施。\n\t - 若為「講座/活動」：整理報名方式、活動地點、講者資訊。\n\t - 若為「課程/選課」：整理適用對象、重要日期、流程說明。\n\t - 若為「其他」：請靈活分析，確保重點清晰。\n\t - 請詳細分析公告內容，並將重點以條列式呈現，確保資訊清晰且易於理解，但請確保無冗言贅字，僅保留具備「行動價值」的資訊。\n4. **格式要求**：只輸出 JSON。\n5. **禁止輸出**：請勿於非 \"analysis_cn\" 欄位輸出簡體，使用繁體中文。\n\n# OUTPUT FORMAT\n{\n\t\"is_relevant\": true,\n\t\"title\": \"公告標題\",\n\t\"summary\": \"一句話極簡概述\",\n\t\"analysis\": \"根據內容自動整理的條列式重點字串\",\n    \"analysis_cn\": \"根據內容自動整理的條列式重點字串（簡體中文），該文字用於後續計算 SimHash\",\n\t\"calendar\": [ { \"date\": \"YYYY-MM-DD\", \"event\": \"事件名稱\" } ],\n\t\"tags\": [\"關鍵字\"]\n}\n\n# DATA\n<<<DATA\n"@
}

/// The end of the data block.
pub open spec fn prompt_tail() -> Seq<char> {
    "\nDATA>>>\n"@
}

/// The prompt: the instructions with the reference date, the topics of
/// interest joined by `、`, and the post's text inside the data block.
pub open spec fn prompt_spec(user_input: Seq<char>, today: Seq<char>, kb: Seq<Seq<char>>) -> Seq<char> {
    prompt_head() + today + prompt_topics() + join(kb, "、"@) + prompt_rules() + user_input
        + prompt_tail()
}

pub fn build_prompt(user_input: &str, today_str: &str, kb: &Vec<String>) -> (r: String)
    ensures
        r@ == prompt_spec(user_input@, today_str@, string_views(kb@)),
{
    let kb_context = join_strings(kb, "、");
    let mut out: Vec<char> = Vec::new();
    push_str(&mut out, "# ROLE\n你是校園資訊架構師。你的任務是將公告內容精煉為結構化 JSON，並提供易讀的深度分析。\n\n# CONTEXT\n- 基準日期：");
    push_str(&mut out, today_str);
    push_str(&mut out, "\n- 關注範疇（知識庫）：");
    push_str(&mut out, kb_context.as_str());
    push_str(&mut out, "\n\n# RULES\n1. **日期標準化**：所有日期轉為 \"YYYY-MM-DD\"。\n2. **智慧判定 (is_relevant)**：僅當公告主旨或主要對象與知識庫直接相關時為 true。\n3. **靈活解析 (analysis)**：\n\t - 此欄位為「單一字串」。請使用 Markdown 換行與條列符號排版。\n\t - **不要寫死結構**：請根據公告類型自動整理。例如：\n\t - 若為「獎助學金」：整理對象、文件、流程。\n\t - 若為「行政/停水/停電」：整理受影響範圍、時間、配套措施。\n\t - 若為「講座/活動」：整理報名方式、活動地點、講者資訊。\n\t - 若為「課程/選課」：整理適用對象、重要日期、流程說明。\n\t - 若為「其他」：請靈活分析，確保重點清晰。\n\t - 請詳細分析公告內容，並將重點以條列式呈現，確保資訊清晰且易於理解，但請確保無冗言贅字，僅保留具備「行動價值」的資訊。\n4. **格式要求**：只輸出 JSON。\n5. **禁止輸出**：請勿於非 \"analysis_cn\" 欄位輸出簡體，使用繁體中文。\n\n# OUTPUT FORMAT\n{\n\t\"is_relevant\": true,\n\t\"title\": \"公告標題\",\n\t\"summary\": \"一句話極簡概述\",\n\t\"analysis\": \"根據內容自動整理的條列式重點字串\",\n    \"analysis_cn\": \"根據內容自動整理的條列式重點字串（簡體中文），該文字用於後續計算 SimHash\",\n\t\"calendar\": [ { \"date\": \"YYYY-MM-DD\", \"event\": \"事件名稱\" } ],\n\t\"tags\": [\"關鍵字\"]\n}\n\n# DATA\n<<<DATA\n");
    push_str(&mut out, user_input);
    push_str(&mut out, "\nDATA>>>\n");
    string_from_chars(out.as_slice())
}

/// The text of a post handed to the model.
pub open spec fn post_input_spec(post: CrawledPost) -> Seq<char> {
    "來源: "@ + post.source_name@ + "\n標題: "@ + post.title@ + "\n時間: "@ + post.time@ + "\n連結: "@
        + post.url@ + "\n內容:\n"@ + post.content@
}

pub fn post_input_text(post: &CrawledPost) -> (r: String)
    ensures
        r@ == post_input_spec(*post),
{
    let mut out: Vec<char> = Vec::new();
    push_str(&mut out, "來源: ");
    push_str(&mut out, post.source_name.as_str());
    push_str(&mut out, "\n標題: ");
    push_str(&mut out, post.title.as_str());
    push_str(&mut out, "\n時間: ");
    push_str(&mut out, post.time.as_str());
    push_str(&mut out, "\n連結: ");
    push_str(&mut out, post.url.as_str());
    push_str(&mut out, "\n內容:\n");
    push_str(&mut out, post.content.as_str());
    string_from_chars(out.as_slice())
}

/// The reference date of the prompt: the UTC date of an instant (seconds
/// since the Unix epoch) as `YYYY-MM-DD`.
pub fn reference_date(now_secs: i64) -> (r: Option<String>)
    ensures
        match r {
            Some(s) => strftime_text(now_secs, 0, 0, "%Y-%m-%d"@) == Some(s@),
            None => strftime_text(now_secs, 0, 0, "%Y-%m-%d"@) is None,
        },
{
    format_instant(now_secs, 0, 0, "%Y-%m-%d")
}

} // verus!
