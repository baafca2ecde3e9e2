//! The configuration model: application settings and crawler settings, with
//! the defaults written into a fresh configuration file.
//!
//! Maps of the configuration file are held as lists of (key, value) pairs
//! with distinct keys.
use vstd::prelude::*;

verus! {

/// Main application settings.
#[derive(Clone, Debug)]
pub struct AppConfig {
    /// Role permissions.
    pub roles: RoleConfig,
    /// Class roster: student id to student name.
    pub class_students: Vec<(String, String)>,
    /// Chat integration (LINE / Discord).
    pub link_chat: LinkChatConfig,
    /// Crawler system settings.
    pub crawler_system: CrawlerSystemConfig,
}

/// Role permissions.
#[derive(Clone, Debug)]
pub struct RoleConfig {
    /// Administrator role ids.
    pub admin_roles: Vec<u64>,
    /// Role of students of the class.
    pub local_role: u64,
    /// Role of senior students.
    pub senior_role: u64,
    /// Role of teachers.
    pub teacher_role: u64,
    /// Role of guests.
    pub guest_role: u64,
    /// Role of every verified member.
    pub verified_role: u64,
}

/// Chat integration settings.
#[derive(Clone, Debug)]
pub struct LinkChatConfig {
    /// Whether the integration runs.
    pub enabled: bool,
    /// Address the webhook server binds (IP:port).
    pub bind: String,
    /// LINE channel secret.
    pub line_channel_secret: String,
    /// LINE channel access token.
    pub line_channel_access_token: String,
    /// Cache lifetime in seconds.
    pub cache_ttl_seconds: u64,
    /// Routes by LINE group id (`*` for any group).
    pub group_mapping: Vec<(String, GroupRouteConfig)>,
}

/// Where the messages of a LINE group go on Discord.
#[derive(Clone, Debug)]
pub struct GroupRouteConfig {
    /// Discord channel id.
    pub discord_channel_id: u64,
    /// Discord webhook URL.
    pub discord_webhook_url: String,
    /// Discord webhook avatar URL.
    pub discord_webhook_avatar_url: String,
    /// Message template.
    pub message_template: String,
    /// Webhook avatar URL.
    pub webhook_avatar_url: String,
    /// Webhook name template.
    pub webhook_name_template: String,
    /// Webhook message template.
    pub webhook_message_template: String,
}

/// Crawler system settings.
#[derive(Clone, Debug)]
pub struct CrawlerSystemConfig {
    /// Path of the crawler task file.
    pub tasks_file: String,
}

/// Default server address.
pub fn default_bind() -> (r: String)
    ensures
        r@ == "0.0.0.0:8080"@,
{
    String::from_str("0.0.0.0:8080")
}

/// Default cache lifetime in seconds.
pub fn default_cache_ttl() -> (r: u64)
    ensures
        r == 300,
{
    300
}

/// Default path of the crawler task file.
pub fn default_tasks_file() -> (r: String)
    ensures
        r@ == "config/crawlers.toml"@,
{
    String::from_str("config/crawlers.toml")
}

/// The id written into a fresh configuration as a placeholder.
pub const PLACEHOLDER_ID: u64 = 1234567890123456789;

fn pair(a: &str, b: &str) -> (r: (String, String))
    ensures
        r.0@ == a@,
        r.1@ == b@,
{
    (String::from_str(a), String::from_str(b))
}

/// The role settings of a fresh configuration: every role id, and the one
/// administrator role, is the placeholder id.
pub open spec fn default_roles(r: RoleConfig) -> bool {
    &&& r.admin_roles@ == seq![PLACEHOLDER_ID]
    &&& r.local_role == PLACEHOLDER_ID
    &&& r.senior_role == PLACEHOLDER_ID
    &&& r.teacher_role == PLACEHOLDER_ID
    &&& r.guest_role == PLACEHOLDER_ID
    &&& r.verified_role == PLACEHOLDER_ID
}

/// The chat integration settings of a fresh configuration: enabled, bound to
/// port 8080 on every address, demo LINE credentials, five-minute caches and
/// one route for every group (`*`) with the standard templates.
pub open spec fn default_link_chat(c: LinkChatConfig) -> bool {
    &&& c.enabled
    &&& c.bind@ == "0.0.0.0:8080"@
    &&& c.line_channel_secret@ == "demo_secret"@
    &&& c.line_channel_access_token@ == "demo_access_token"@
    &&& c.cache_ttl_seconds == 300
    &&& c.group_mapping@.len() == 1
    &&& c.group_mapping@[0].0@ == "*"@
    &&& c.group_mapping@[0].1.discord_channel_id == PLACEHOLDER_ID
    &&& c.group_mapping@[0].1.discord_webhook_url@ == Seq::<char>::empty()
    &&& c.group_mapping@[0].1.discord_webhook_avatar_url@ == Seq::<char>::empty()
    &&& c.group_mapping@[0].1.message_template@ == "{name} ({group}): {message}"@
    &&& c.group_mapping@[0].1.webhook_avatar_url@ == Seq::<char>::empty()
    &&& c.group_mapping@[0].1.webhook_name_template@ == "{name} ({group})"@
    &&& c.group_mapping@[0].1.webhook_message_template@ == "{message}"@
}

impl Default for AppConfig {
    fn default() -> (r: Self)
        ensures
            default_roles(r.roles),
            default_link_chat(r.link_chat),
            r.class_students@.len() == 3,
            r.class_students@[0].0@ == "40000001"@ && r.class_students@[0].1@ == "XXA"@,
            r.class_students@[1].0@ == "40000002"@ && r.class_students@[1].1@ == "XXB"@,
            r.class_students@[2].0@ == "40000003"@ && r.class_students@[2].1@ == "XXC"@,
            r.crawler_system.tasks_file@ == "config/crawlers.toml"@,
    {
        let mut students: Vec<(String, String)> = Vec::new();
        students.push(pair("40000001", "XXA"));
        students.push(pair("40000002", "XXB"));
        students.push(pair("40000003", "XXC"));
        AppConfig {
            roles: RoleConfig::default(),
            class_students: students,
            link_chat: LinkChatConfig::default(),
            crawler_system: CrawlerSystemConfig::default(),
        }
    }
}

impl Default for RoleConfig {
    fn default() -> (r: Self)
        ensures
            default_roles(r),
    {
        let mut admin_roles: Vec<u64> = Vec::new();
        admin_roles.push(PLACEHOLDER_ID);
        RoleConfig {
            admin_roles,
            local_role: PLACEHOLDER_ID,
            senior_role: PLACEHOLDER_ID,
            teacher_role: PLACEHOLDER_ID,
            guest_role: PLACEHOLDER_ID,
            verified_role: PLACEHOLDER_ID,
        }
    }
}

impl Default for LinkChatConfig {
    fn default() -> (r: Self)
        ensures
            default_link_chat(r),
    {
        let mut group_mapping: Vec<(String, GroupRouteConfig)> = Vec::new();
        group_mapping.push(
            (
                String::from_str("*"),
                GroupRouteConfig {
                    discord_channel_id: PLACEHOLDER_ID,
                    discord_webhook_url: String::new(),
                    discord_webhook_avatar_url: String::new(),
                    message_template: String::from_str("{name} ({group}): {message}"),
                    webhook_avatar_url: String::new(),
                    webhook_name_template: String::from_str("{name} ({group})"),
                    webhook_message_template: String::from_str("{message}"),
                },
            ),
        );
        LinkChatConfig {
            enabled: true,
            bind: default_bind(),
            line_channel_secret: String::from_str("demo_secret"),
            line_channel_access_token: String::from_str("demo_access_token"),
            cache_ttl_seconds: default_cache_ttl(),
            group_mapping,
        }
    }
}

impl Default for GroupRouteConfig {
    fn default() -> (r: Self)
        ensures
            r.discord_channel_id == 0,
            r.discord_webhook_url@ == Seq::<char>::empty(),
            r.discord_webhook_avatar_url@ == Seq::<char>::empty(),
            r.message_template@ == Seq::<char>::empty(),
            r.webhook_avatar_url@ == Seq::<char>::empty(),
            r.webhook_name_template@ == Seq::<char>::empty(),
            r.webhook_message_template@ == Seq::<char>::empty(),
    {
        GroupRouteConfig {
            discord_channel_id: 0,
            discord_webhook_url: String::new(),
            discord_webhook_avatar_url: String::new(),
            message_template: String::new(),
            webhook_avatar_url: String::new(),
            webhook_name_template: String::new(),
            webhook_message_template: String::new(),
        }
    }
}

impl Default for CrawlerSystemConfig {
    fn default() -> (r: Self)
        ensures
            r.tasks_file@ == "config/crawlers.toml"@,
    {
        CrawlerSystemConfig { tasks_file: default_tasks_file() }
    }
}

// ---------------------------------------------------------------------------
// Crawler settings
// ---------------------------------------------------------------------------

/// The User-Agent the crawler sends unless an entry sets its own.
pub open spec fn bot_user_agent() -> Seq<char> {
    "NFU-Bot/1.0 (Github:MKMonkeyCat/nfu-class-chat-bot)"@
}

/// Crawler settings.
#[derive(Clone, Debug)]
pub struct CrawlerConfig {
    /// Whether the crawler runs.
    pub enabled: bool,
    /// User-Agent used where an entry sets none.
    pub global_user_agent: String,
    /// Language-model settings for summaries.
    pub llm: CrawlerLlmConfig,
    /// The crawled sites.
    pub entries: Vec<CrawlerEntryConfig>,
}

/// One crawled site.
#[derive(Clone, Debug)]
pub struct CrawlerEntryConfig {
    /// Name of the entry.
    pub name: String,
    /// Whether the entry is crawled.
    pub enabled: bool,
    /// The list page URL.
    pub url: String,
    /// Schedule: seconds, `@every ...` or a cron expression.
    pub cron: String,
    /// Request timeout in milliseconds.
    pub timeout_ms: u64,
    /// How the entry runs.
    pub config: EntryRunConfig,
    /// Selectors of the list page.
    pub selectors: SelectionConfig,
    /// Selectors of a post's own page.
    pub sub_selectors: Option<SubSelectionConfig>,
    /// Where new posts are announced.
    pub notifications: NotificationConfig,
}

/// How an entry runs.
#[derive(Clone, Debug)]
pub struct EntryRunConfig {
    /// Crawl depth.
    pub depth: u32,
    /// Whether links are followed.
    pub go_lnk: bool,
    /// Most items taken per run.
    pub max_items_per_run: u32,
    /// Whether only new items are taken.
    pub incremental_update: bool,
    /// User-Agent of the entry.
    pub user_agent: String,
}

/// CSS selectors of a list page.
#[derive(Clone, Debug)]
pub struct SelectionConfig {
    pub item_selector: String,
    pub id_selector: String,
    pub category_selector: Option<String>,
    pub source_selector: Option<String>,
    pub title_selector: String,
    pub link_selector: String,
    pub time_selector: String,
    pub tags_selector: Option<String>,
}

/// CSS selectors of a post's own page.
#[derive(Clone, Debug)]
pub struct SubSelectionConfig {
    pub full_content: String,
    pub author_unit: String,
    pub attachments: String,
    pub attachment_attr: String,
}

/// Where a new post is announced.
#[derive(Clone, Debug)]
pub struct NotificationConfig {
    pub discord: DiscordNotificationConfig,
}

/// Discord announcement settings.
#[derive(Clone, Debug)]
pub struct DiscordNotificationConfig {
    pub webhook_url: String,
    pub webhook_name_template: String,
    pub webhook_avatar_url: String,
    pub channel_id: u64,
    pub embed_title: String,
    pub embed_color: u32,
    pub fields: Vec<DiscordFieldConfig>,
    pub include_attachments: bool,
}

/// One field of the Discord embed, as templates.
#[derive(Clone, Debug)]
pub struct DiscordFieldConfig {
    pub name: String,
    pub value: String,
    pub inline: bool,
}

/// Language-model settings.
#[derive(Clone, Debug)]
pub struct CrawlerLlmConfig {
    pub enabled: bool,
    pub api_url: String,
    pub model: String,
    pub api_key_env: String,
    pub knowledge_base: Vec<String>,
}

impl Default for CrawlerConfig {
    fn default() -> (r: Self)
        ensures
            r.enabled,
            r.global_user_agent@ == bot_user_agent(),
            r.entries@.len() == 1,
            r.entries@[0].name@ == "虎科大-主頁"@,
            !r.llm.enabled,
    {
        let mut entries: Vec<CrawlerEntryConfig> = Vec::new();
        entries.push(CrawlerEntryConfig::default());
        CrawlerConfig {
            enabled: true,
            global_user_agent: String::from_str(
                "NFU-Bot/1.0 (Github:MKMonkeyCat/nfu-class-chat-bot)",
            ),
            llm: CrawlerLlmConfig::default(),
            entries,
        }
    }
}

impl Default for CrawlerEntryConfig {
    fn default() -> (r: Self)
        ensures
            r.name@ == "虎科大-主頁"@,
            r.enabled,
            r.url@ == "https://www.nfu.edu.tw/"@,
            r.cron@ == "0 0 * * * *"@,
            r.timeout_ms == 20000,
            r.config.depth == 2,
            r.selectors.item_selector@ == ".w-annc"@,
            r.sub_selectors is Some,
            r.notifications.discord.channel_id == 123456789012345678,
    {
        CrawlerEntryConfig {
            name: String::from_str("虎科大-主頁"),
            enabled: true,
            url: String::from_str("https://www.nfu.edu.tw/"),
            cron: String::from_str("0 0 * * * *"),
            timeout_ms: 20000,
            config: EntryRunConfig::default(),
            selectors: SelectionConfig::default(),
            sub_selectors: Some(SubSelectionConfig::default()),
            notifications: NotificationConfig::default(),
        }
    }
}

impl Default for EntryRunConfig {
    fn default() -> (r: Self)
        ensures
            r.depth == 2,
            r.go_lnk,
            r.max_items_per_run == 50,
            r.incremental_update,
            r.user_agent@ == bot_user_agent(),
    {
        EntryRunConfig {
            depth: 2,
            go_lnk: true,
            max_items_per_run: 50,
            incremental_update: true,
            user_agent: String::from_str("NFU-Bot/1.0 (Github:MKMonkeyCat/nfu-class-chat-bot)"),
        }
    }
}

impl Default for SelectionConfig {
    fn default() -> (r: Self)
        ensures
            r.item_selector@ == ".w-annc"@,
            r.id_selector@ == "a"@,
            r.category_selector is None,
            r.source_selector is None,
            r.title_selector@ == ".w-annc__title"@,
            r.link_selector@ == "a"@,
            r.time_selector@ == ".w-annc__postdate"@,
            r.tags_selector matches Some(t) && t@ == ".tags"@,
    {
        SelectionConfig {
            item_selector: String::from_str(".w-annc"),
            id_selector: String::from_str("a"),
            category_selector: None,
            source_selector: None,
            title_selector: String::from_str(".w-annc__title"),
            link_selector: String::from_str("a"),
            time_selector: String::from_str(".w-annc__postdate"),
            tags_selector: Some(String::from_str(".tags")),
        }
    }
}

impl Default for SubSelectionConfig {
    fn default() -> (r: Self)
        ensures
            r.full_content@ == ".article-content-box"@,
            r.author_unit@ == ".info-dept"@,
            r.attachments@ == ".file-download-list a"@,
            r.attachment_attr@ == "href"@,
    {
        SubSelectionConfig {
            full_content: String::from_str(".article-content-box"),
            author_unit: String::from_str(".info-dept"),
            attachments: String::from_str(".file-download-list a"),
            attachment_attr: String::from_str("href"),
        }
    }
}

impl Default for NotificationConfig {
    fn default() -> (r: Self)
        ensures
            r.discord.channel_id == 123456789012345678,
            r.discord.embed_color == 3447003,
    {
        NotificationConfig { discord: DiscordNotificationConfig::default() }
    }
}

fn field(name: &str, value: &str, inline: bool) -> (r: DiscordFieldConfig)
    ensures
        r.name@ == name@,
        r.value@ == value@,
        r.inline == inline,
{
    DiscordFieldConfig { name: String::from_str(name), value: String::from_str(value), inline }
}

impl Default for DiscordNotificationConfig {
    fn default() -> (r: Self)
        ensures
            r.webhook_url@ == "https://discord.com/api/webhooks/..."@,
            r.webhook_name_template@ == "MyCrawlerBot"@,
            r.webhook_avatar_url@ == ""@,
            r.channel_id == 123456789012345678,
            r.embed_title@ == "📌 {title}"@,
            r.embed_color == 3447003,
            r.fields@.len() == 5,
            r.fields@[0].name@ == "發佈單位"@ && r.fields@[0].value@ == "{author_unit}"@
                && r.fields@[0].inline,
            r.fields@[1].name@ == "類別"@ && r.fields@[1].value@ == "{category}"@
                && r.fields@[1].inline,
            r.fields@[2].name@ == "公告連結"@ && r.fields@[2].value@ == "[點我開啟]({url})"@
                && r.fields@[2].inline,
            r.fields@[3].name@ == "摘要"@ && r.fields@[3].value@ == "{summary}"@
                && r.fields@[3].inline,
            r.fields@[4].name@ == "標籤"@ && r.fields@[4].value@ == "{tags}"@
                && !r.fields@[4].inline,
            !r.include_attachments,
    {
        let mut fields: Vec<DiscordFieldConfig> = Vec::new();
        fields.push(field("發佈單位", "{author_unit}", true));
        fields.push(field("類別", "{category}", true));
        fields.push(field("公告連結", "[點我開啟]({url})", true));
        fields.push(field("摘要", "{summary}", true));
        fields.push(field("標籤", "{tags}", false));
        DiscordNotificationConfig {
            webhook_url: String::from_str("https://discord.com/api/webhooks/..."),
            webhook_name_template: String::from_str("MyCrawlerBot"),
            webhook_avatar_url: String::from_str(""),
            channel_id: 123456789012345678,
            embed_title: String::from_str("📌 {title}"),
            embed_color: 3447003,
            fields,
            include_attachments: false,
        }
    }
}

impl Default for CrawlerLlmConfig {
    fn default() -> (r: Self)
        ensures
            !r.enabled,
            r.api_url@ == "https://api.example-llm.com"@,
            r.model@ == "qwen2.5-14b"@,
            r.api_key_env@ == "LLM_API_KEY"@,
            r.knowledge_base@.len() == 11,
            r.knowledge_base@[0]@ == "管理學院"@,
            r.knowledge_base@[10]@ == "獎學金"@,
    {
        let mut kb: Vec<String> = Vec::new();
        kb.push(String::from_str("管理學院"));
        kb.push(String::from_str("資管系"));
        kb.push(String::from_str("校區"));
        kb.push(String::from_str("全校"));
        kb.push(String::from_str("本班"));
        kb.push(String::from_str("通識"));
        kb.push(String::from_str("必修課程"));
        kb.push(String::from_str("學分"));
        kb.push(String::from_str("宿舍"));
        kb.push(String::from_str("交換生"));
        kb.push(String::from_str("獎學金"));
        CrawlerLlmConfig {
            enabled: false,
            api_url: String::from_str("https://api.example-llm.com"),
            model: String::from_str("qwen2.5-14b"),
            api_key_env: String::from_str("LLM_API_KEY"),
            knowledge_base: kb,
        }
    }
}

} // verus!
