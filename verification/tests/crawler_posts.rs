use class_chat_bot::config::{
    CrawlerConfig, CrawlerEntryConfig, DiscordFieldConfig, DiscordNotificationConfig,
    NotificationConfig, SubSelectionConfig,
};
use class_chat_bot::crawler::listing::{absolutize_url, parse_base_posts, parse_full_post};
use class_chat_bot::crawler::llm::{build_prompt, post_input_text, reference_date};
use class_chat_bot::crawler::message::{
    build_discord_message, calendar_text, merged_tags, tags_text, try_build_discord_message,
};
use class_chat_bot::crawler::pipeline::{
    crawler_idle, entry_due, entry_key, post_urls, prune_cutoff, request_timeout_ms,
    select_new_posts,
};
use class_chat_bot::crawler::sim_hash::{
    fingerprint_of_signs, hamming_distance, is_punctuation_token, split_fingerprint,
};
use class_chat_bot::crawler::types::{CrawledPost, CrawlerBasePost, LlmCalendarItem, LlmResult};
use class_chat_bot::timezone::default_timezone;

fn strings(v: &[&str]) -> Vec<String> {
    v.iter().map(|s| s.to_string()).collect()
}

fn post() -> CrawledPost {
    CrawledPost {
        id: "1".to_string(),
        category: "公告".to_string(),
        source_name: "NFU".to_string(),
        title: "Post".to_string(),
        url: "https://x/1".to_string(),
        content: "內容".to_string(),
        author_unit: String::new(),
        attachments: strings(&["https://x/a.pdf", "https://x/b.pdf"]),
        time: "2024-01-01T00:00:00Z".to_string(),
        tags: strings(&["a"]),
    }
}

fn llm() -> LlmResult {
    LlmResult {
        is_relevant: true,
        title: String::new(),
        summary: "  ".to_string(),
        analysis: " A ".to_string(),
        analysis_cn: String::new(),
        calendar: vec![
            LlmCalendarItem { date: " 2024-01-02 ".to_string(), event: "考試".to_string() },
            LlmCalendarItem { date: " ".to_string(), event: " ".to_string() },
        ],
        tags: strings(&["b", "a", " "]),
    }
}

fn notification() -> NotificationConfig {
    NotificationConfig {
        discord: DiscordNotificationConfig {
            webhook_url: String::new(),
            webhook_name_template: "{entries_name}".to_string(),
            webhook_avatar_url: String::new(),
            channel_id: 1,
            embed_title: "[{category}] {title}".to_string(),
            embed_color: 7,
            fields: vec![
                DiscordFieldConfig { name: "摘要".to_string(), value: "{summary}".to_string(), inline: false },
                DiscordFieldConfig { name: "標籤".to_string(), value: "{tags}".to_string(), inline: true },
                DiscordFieldConfig { name: "空".to_string(), value: "{analysis_cn}".to_string(), inline: false },
                DiscordFieldConfig { name: "行事曆".to_string(), value: "{calendar}".to_string(), inline: false },
            ],
            include_attachments: true,
        },
    }
}

#[test]
fn tags_and_calendar_texts() {
    let tags = merged_tags(&strings(&["a"]), &strings(&["b", "a", " ", "b"]));
    assert_eq!(tags, strings(&["a", "b"]));
    assert_eq!(tags_text(&strings(&[" a ", "", "b"])), "#a #b");
    assert_eq!(calendar_text(&llm().calendar), "- 2024-01-02 考試");
}

#[test]
fn announcement_message() {
    let entry = CrawlerEntryConfig::default();
    let m = build_discord_message(&entry, &notification(), &post(), &llm());
    assert_eq!(m.webhook_username.as_deref(), Some("虎科大-主頁"));
    assert!(m.content.is_none());
    assert_eq!(m.embed.title, "[公告] Post");
    assert_eq!(m.embed.description, "內容");
    assert_eq!(m.embed.url, "https://x/1");
    assert_eq!(m.embed.color, 7);
    assert_eq!(m.embed.footer, "時間：2024-01-01T00:00:00Z");
    let fields: Vec<(String, String, bool)> =
        m.embed.fields.iter().map(|f| (f.name.clone(), f.value.clone(), f.inline)).collect();
    assert_eq!(
        fields,
        vec![
            ("摘要".to_string(), "內容".to_string(), false),
            ("標籤".to_string(), "#a #b".to_string(), true),
            ("行事曆".to_string(), "- 2024-01-02 考試".to_string(), false),
            ("附件".to_string(), "https://x/a.pdf\nhttps://x/b.pdf".to_string(), false),
        ]
    );
}

#[test]
fn model_title_and_long_content() {
    let entry = CrawlerEntryConfig::default();
    let mut p = post();
    p.content = "x".repeat(130);
    p.time = "  ".to_string();
    let mut l = llm();
    l.title = "模型標題".to_string();
    let m = build_discord_message(&entry, &notification(), &p, &l);
    assert_eq!(m.embed.title, "[公告] 模型標題");
    assert_eq!(m.embed.description, "x".repeat(120));
    assert_eq!(m.embed.footer, "");
}

#[test]
fn refused_time_pattern_is_reported() {
    let entry = CrawlerEntryConfig::default();
    let mut n = notification();
    n.discord.embed_title = "{time:%Q}".to_string();
    assert!(try_build_discord_message(&entry, &n, &post(), &llm()).is_none());
}

#[test]
fn prompt_text() {
    let p = build_prompt("INPUT", "2024-01-01", &strings(&["A", "B"]));
    assert!(p.starts_with("# ROLE\n你是校園資訊架構師。"));
    assert!(p.contains("- 基準日期：2024-01-01\n- 關注範疇（知識庫）：A、B\n\n# RULES\n"));
    assert!(p.contains("\"calendar\": [ { \"date\": \"YYYY-MM-DD\", \"event\": \"事件名稱\" } ],"));
    assert!(p.ends_with("<<<DATA\nINPUT\nDATA>>>\n"));
    assert_eq!(
        post_input_text(&post()),
        "來源: NFU\n標題: Post\n時間: 2024-01-01T00:00:00Z\n連結: https://x/1\n內容:\n內容"
    );
    assert_eq!(reference_date(1_704_067_200).as_deref(), Some("2024-01-01"));
}

#[test]
fn links_made_absolute() {
    assert_eq!(absolutize_url("https://a.edu/news/list", "../p/1"), "https://a.edu/p/1");
    assert_eq!(absolutize_url("https://a.edu/", "https://b.org/x"), "https://b.org/x");
    assert_eq!(absolutize_url("not a url", "rel"), "rel");
    assert_eq!(absolutize_url("https://a.edu/", ""), "");
}

fn listing_entry() -> CrawlerEntryConfig {
    let mut e = CrawlerEntryConfig::default();
    e.url = "https://www.nfu.edu.tw/news/".to_string();
    e.selectors.item_selector = ".item".to_string();
    e.selectors.id_selector = "a.id".to_string();
    e.selectors.title_selector = ".t".to_string();
    e.selectors.link_selector = "a.l".to_string();
    e.selectors.time_selector = ".d".to_string();
    e.selectors.category_selector = None;
    e.selectors.source_selector = None;
    e.selectors.tags_selector = Some(".tag".to_string());
    e
}

#[test]
fn listed_posts() {
    let html = r#"<html><body>
<div class="item"><a class="id" href=" /p/1 ">x</a><span class="t">  Hello
  World </span><a class="l" href="/p/1">go</a><span class="d">寫於 2024-01-02</span><span class="tag"> A </span><span class="tag">  </span><span class="tag">B</span></div>
<div class="item"><a class="id" href="">x</a><span class="t">No id</span><a class="l" href="/p/2">go</a><span class="d">x</span></div>
</body></html>"#;
    let entry = listing_entry();
    let posts = parse_base_posts(&entry, html, &default_timezone(), 0).unwrap();
    assert_eq!(posts.len(), 1);
    let p = &posts[0];
    assert_eq!(p.id, "/p/1");
    assert_eq!(p.title, "Hello World");
    assert_eq!(p.url, "https://www.nfu.edu.tw/p/1");
    assert_eq!(p.category, "");
    assert_eq!(p.source_name, "虎科大-主頁");
    assert_eq!(p.time, "2024-01-01T16:00:00Z");
    assert_eq!(p.tags, strings(&["A", "B"]));
}

#[test]
fn refused_selector_is_reported() {
    let mut entry = listing_entry();
    entry.selectors.item_selector = "[[".to_string();
    let err = parse_base_posts(&entry, "<p></p>", &default_timezone(), 0).unwrap_err();
    assert!(err.starts_with("invalid item_selector: "));
    let mut entry = listing_entry();
    entry.selectors.tags_selector = Some("::".to_string());
    let err = parse_base_posts(&entry, "<p></p>", &default_timezone(), 0).unwrap_err();
    assert!(err.starts_with("invalid selector '::': "));
}

#[test]
fn post_pages() {
    let base = CrawlerBasePost {
        id: "/p/1".to_string(),
        category: "c".to_string(),
        source_name: " ".to_string(),
        title: "T".to_string(),
        url: "https://www.nfu.edu.tw/p/1".to_string(),
        time: "2024-01-01T16:00:00Z".to_string(),
        tags: strings(&["A"]),
    };
    let mut entry = listing_entry();
    entry.sub_selectors = Some(SubSelectionConfig {
        full_content: ".c".to_string(),
        author_unit: ".au".to_string(),
        attachments: "a.f".to_string(),
        attachment_attr: "href".to_string(),
    });
    let html = r#"<div class="c"><p>Line 1</p>  <p>Line   2</p></div><span class="au">Office</span><a class="f" href="/f/1.pdf">f</a><a class="f" href="">x</a><a class="f">none</a>"#;
    let full = parse_full_post(&entry, &base, html).unwrap();
    assert_eq!(full.content, "Line 1 Line 2");
    assert_eq!(full.author_unit, "Office");
    assert_eq!(full.attachments, strings(&["https://www.nfu.edu.tw/f/1.pdf"]));
    assert_eq!(full.source_name, "虎科大-主頁");
    assert_eq!(full.tags, strings(&["A"]));
    entry.sub_selectors = None;
    let bare = parse_full_post(&entry, &base, html).unwrap();
    assert_eq!(bare.content, "");
    assert!(bare.attachments.is_empty());
}

fn listed(url: &str) -> CrawlerBasePost {
    CrawlerBasePost {
        id: url.to_string(),
        category: String::new(),
        source_name: String::new(),
        title: "t".to_string(),
        url: url.to_string(),
        time: String::new(),
        tags: Vec::new(),
    }
}

#[test]
fn new_posts_and_rounds() {
    let posts = vec![listed("a"), listed(""), listed("b"), listed("c")];
    assert_eq!(post_urls(&posts), strings(&["a", "", "b", "c"]));
    let fresh = select_new_posts(posts, &strings(&["b"]));
    let urls: Vec<String> = fresh.iter().map(|p| p.url.clone()).collect();
    assert_eq!(urls, strings(&["a", "c"]));
    assert_eq!(entry_key(&CrawlerEntryConfig::default()), "虎科大-主頁::https://www.nfu.edu.tw/");
    assert!(entry_due(None, 5));
    assert!(!entry_due(Some(10), 5));
    assert!(entry_due(Some(5), 5));
    assert_eq!(request_timeout_ms(10), 1000);
    assert_eq!(request_timeout_ms(20000), 20000);
    assert_eq!(prune_cutoff(1000, 10), 990);
    let mut cfg = CrawlerConfig::default();
    assert!(!crawler_idle(&cfg));
    cfg.entries.clear();
    assert!(crawler_idle(&cfg));
}

#[test]
fn fingerprints() {
    assert_eq!(split_fingerprint(0x0004_0003_0002_0001), [1, 2, 3, 4]);
    assert_eq!(hamming_distance(0b1011, 0b0001), 2);
    assert_eq!(hamming_distance(0, u64::MAX), 64);
    let mut signs = [false; 64];
    signs[0] = true;
    signs[63] = true;
    assert_eq!(fingerprint_of_signs(&signs), 1 | (1u64 << 63));
    assert!(is_punctuation_token("!?"));
    assert!(!is_punctuation_token("abc"));
    assert!(!is_punctuation_token("!!!!"));
    assert!(!is_punctuation_token("，"));
}
