//! The descriptions of the settings, written as comments into configuration
//! files. Each description is the doc comment of its setting; a map of named
//! entries describes its entries under the key `*`.
use vstd::prelude::*;
use crate::config::{AppConfig, CrawlerConfig};
use crate::config_file::{DocNode, SpecDoc, doc_entries_view, doc_text, lemma_doc_entries_view};

verus! {

/// The keys a table's description names, in order.
pub open spec fn child_keys(d: SpecDoc) -> Seq<Seq<char>> {
    match d {
        SpecDoc::Node(_, c) => c.map_values(|e: (Seq<char>, SpecDoc)| e.0),
        SpecDoc::Leaf(_) => seq![],
    }
}

fn leaf(text: &str) -> (r: DocNode)
    ensures
        r@ == SpecDoc::Leaf(text@),
{
    DocNode::Leaf(String::from_str(text))
}

fn node(text: &str, children: Vec<(String, DocNode)>) -> (r: DocNode)
    ensures
        r@ == SpecDoc::Node(text@, doc_entries_view(children@)),
{
    DocNode::Node(String::from_str(text), children)
}

fn field(key: &str, d: DocNode) -> (r: (String, DocNode))
    ensures
        r.0@ == key@,
        r.1 == d,
{
    (String::from_str(key), d)
}

/// The description of a map whose entries are each described by `entry`.
fn map_of(text: &str, entry: DocNode) -> (r: DocNode)
    ensures
        r@ matches SpecDoc::Node(t, c) && t == text@ && c.len() == 1 && c[0].0 == "*"@ && c[0].1
            == entry@,
{
    let children = vec![field("*", entry)];
    proof {
        lemma_doc_entries_view(children@);
    }
    node(text, children)
}

spec fn group_route_doc() -> SpecDoc {
    SpecDoc::Node(
        "群組路由設定，用於將訊息導向 Discord / Webhook"@,
        seq![
            ("discord_channel_id"@, SpecDoc::Leaf("Discord 頻道 ID"@)),
            ("discord_webhook_url"@, SpecDoc::Leaf("Discord Webhook URL"@)),
            ("discord_webhook_avatar_url"@, SpecDoc::Leaf("Discord Webhook 頭像 URL"@)),
            ("message_template"@, SpecDoc::Leaf("訊息模板 (可選)"@)),
            ("webhook_avatar_url"@, SpecDoc::Leaf("Webhook 頭像 URL (可選)"@)),
            ("webhook_name_template"@, SpecDoc::Leaf("Webhook 名稱模板 (可選)"@)),
            ("webhook_message_template"@, SpecDoc::Leaf("Webhook 訊息模板 (可選)"@)),
        ],
    )
}

/// The description of one route of a LINE group.
fn group_route_docs() -> (r: DocNode)
    ensures
        r@ == group_route_doc(),
{
    let route_children = vec![
        field("discord_channel_id", leaf("Discord 頻道 ID")),
        field("discord_webhook_url", leaf("Discord Webhook URL")),
        field("discord_webhook_avatar_url", leaf("Discord Webhook 頭像 URL")),
        field("message_template", leaf("訊息模板 (可選)")),
        field("webhook_avatar_url", leaf("Webhook 頭像 URL (可選)")),
        field("webhook_name_template", leaf("Webhook 名稱模板 (可選)")),
        field("webhook_message_template", leaf("Webhook 訊息模板 (可選)")),
    ];
    proof {
        lemma_doc_entries_view(route_children@);
        assert(doc_entries_view(route_children@) =~= group_route_doc()->Node_1);
    }
    let route = node("群組路由設定，用於將訊息導向 Discord / Webhook", route_children);
    route
}

impl AppConfig {
    /// The descriptions of the application settings.
    pub fn get_recursive_docs() -> (r: DocNode)
        ensures
            r@ is Node,
            doc_text(r@) == "主應用程式設定"@,
            child_keys(r@) == seq![
                "roles"@,
                "class_students"@,
                "link_chat"@,
                "crawler_system"@,
            ],
    {
        let roles = node(
            "角色權限設定",
            vec![
                field("admin_roles", leaf("管理員角色 ID 列表")),
                field("local_role", leaf("本地角色 ID")),
                field("senior_role", leaf("高級角色 ID")),
                field("teacher_role", leaf("教師角色 ID")),
                field("guest_role", leaf("訪客角色 ID")),
                field("verified_role", leaf("已驗證使用者角色 ID")),
            ],
        );
        let students = map_of("班級學生對應表 (key: 班級或學號, value: 學生名稱)", leaf(""));
        let link_chat = node(
            "聊天整合設定（Line / Discord）",
            vec![
                field("enabled", leaf("是否啟用聊天整合")),
                field("bind", leaf("綁定的伺服器地址 (IP:Port)")),
                field("line_channel_secret", leaf("LINE channel secret")),
                field("line_channel_access_token", leaf("LINE channel access token")),
                field("cache_ttl_seconds", leaf("快取存活時間 (秒)")),
                field(
                    "group_mapping",
                    map_of(
                        "群組對應表 (key: 群組 ID, value: 對應 Discord/Webhook 設定)",
                        group_route_docs(),
                    ),
                ),
            ],
        );
        let crawler_system = node(
            "爬蟲系統設定",
            vec![field("tasks_file", leaf("爬蟲任務檔案路徑"))],
        );
        let children = vec![
            field("roles", roles),
            field("class_students", students),
            field("link_chat", link_chat),
            field("crawler_system", crawler_system),
        ];
        proof {
            lemma_doc_entries_view(children@);
        }
        let r = node("主應用程式設定", children);
        assert(child_keys(r@) =~= seq!["roles"@, "class_students"@, "link_chat"@, "crawler_system"@]);
        r
    }
}

spec fn embed_fields_doc() -> SpecDoc {
    SpecDoc::Node(
        "Embed 欄位設定"@,
        seq![
            ("name"@, SpecDoc::Leaf("欄位名稱"@)),
            ("value"@, SpecDoc::Leaf("欄位值"@)),
            ("inline"@, SpecDoc::Leaf("是否內聯顯示"@)),
        ],
    )
}

spec fn discord_notification_doc() -> SpecDoc {
    SpecDoc::Node(
        "Discord 通知設定"@,
        seq![
            ("webhook_url"@, SpecDoc::Leaf("Discord Webhook URL"@)),
            ("webhook_name_template"@, SpecDoc::Leaf("Webhook 名稱模板"@)),
            ("webhook_avatar_url"@, SpecDoc::Leaf("Webhook 頭像 URL"@)),
            ("channel_id"@, SpecDoc::Leaf("發送訊息的頻道 ID"@)),
            ("embed_title"@, SpecDoc::Leaf("Embed 標題"@)),
            ("embed_color"@, SpecDoc::Leaf("Embed 顏色（十進位）"@)),
            ("fields"@, embed_fields_doc()),
            ("include_attachments"@, SpecDoc::Leaf("是否附帶附件"@)),
        ],
    )
}

/// The description of the Discord announcement settings.
fn discord_notification_docs() -> (r: DocNode)
    ensures
        r@ == discord_notification_doc(),
{
    let embed_fields_children = vec![
        field("name", leaf("欄位名稱")),
        field("value", leaf("欄位值")),
        field("inline", leaf("是否內聯顯示")),
    ];
    proof {
        lemma_doc_entries_view(embed_fields_children@);
        assert(doc_entries_view(embed_fields_children@) =~= embed_fields_doc()->Node_1);
    }
    let embed_fields = node("Embed 欄位設定", embed_fields_children);
    let children = vec![
        field("webhook_url", leaf("Discord Webhook URL")),
        field("webhook_name_template", leaf("Webhook 名稱模板")),
        field("webhook_avatar_url", leaf("Webhook 頭像 URL")),
        field("channel_id", leaf("發送訊息的頻道 ID")),
        field("embed_title", leaf("Embed 標題")),
        field("embed_color", leaf("Embed 顏色（十進位）")),
        field("fields", embed_fields),
        field("include_attachments", leaf("是否附帶附件")),
    ];
    proof {
        lemma_doc_entries_view(children@);
        assert(doc_entries_view(children@) =~= discord_notification_doc()->Node_1);
    }
    node("Discord 通知設定", children)
}

spec fn entry_run_doc() -> SpecDoc {
    SpecDoc::Node(
        "入口的執行細節設定"@,
        seq![
            ("depth"@, SpecDoc::Leaf("爬蟲深度（抓取頁面層數）"@)),
            ("go_lnk"@, SpecDoc::Leaf("是否追蹤鏈結繼續抓取"@)),
            ("max_items_per_run"@, SpecDoc::Leaf("每次執行的最大抓取項目數"@)),
            ("incremental_update"@, SpecDoc::Leaf("是否啟用增量更新模式（只抓取新資料）"@)),
            ("user_agent"@, SpecDoc::Leaf("該入口使用的 User-Agent"@)),
        ],
    )
}

spec fn selection_doc() -> SpecDoc {
    SpecDoc::Node(
        "項目選取器設定，用於抓取列表頁資料"@,
        seq![
            ("item_selector"@, SpecDoc::Leaf("項目列表選取器（CSS selector）"@)),
            ("id_selector"@, SpecDoc::Leaf("項目唯一 ID 選取器"@)),
            ("category_selector"@, SpecDoc::Leaf("類別選取器（可選）"@)),
            ("source_selector"@, SpecDoc::Leaf("來源選取器（可選）"@)),
            ("title_selector"@, SpecDoc::Leaf("標題選取器"@)),
            ("link_selector"@, SpecDoc::Leaf("連結選取器"@)),
            ("time_selector"@, SpecDoc::Leaf("發布時間選取器"@)),
            ("tags_selector"@, SpecDoc::Leaf("標籤選取器（可選）"@)),
        ],
    )
}

spec fn sub_selection_doc() -> SpecDoc {
    SpecDoc::Node(
        "子內容選取器設定，用於抓取詳細頁資料"@,
        seq![
            ("full_content"@, SpecDoc::Leaf("文章全文選取器"@)),
            ("author_unit"@, SpecDoc::Leaf("作者或單位選取器"@)),
            ("attachments"@, SpecDoc::Leaf("附件列表選取器"@)),
            ("attachment_attr"@, SpecDoc::Leaf("附件屬性名稱，如 href、src"@)),
        ],
    )
}

spec fn entry_notifications_doc() -> SpecDoc {
    SpecDoc::Node("通知設定，用於爬蟲完成後推播通知"@, seq![("discord"@, discord_notification_doc())])
}

spec fn crawler_entry_doc() -> SpecDoc {
    SpecDoc::Node(
        "各個爬蟲入口的設定"@,
        seq![
            ("name"@, SpecDoc::Leaf("該爬蟲入口名稱"@)),
            ("enabled"@, SpecDoc::Leaf("該爬蟲入口是否啟用"@)),
            ("url"@, SpecDoc::Leaf("爬蟲入口 URL"@)),
            ("cron"@, SpecDoc::Leaf("爬蟲排程 Cron 表達式"@)),
            ("timeout_ms"@, SpecDoc::Leaf("每次爬蟲執行的超時時間（毫秒）"@)),
            ("config"@, entry_run_doc()),
            ("selectors"@, selection_doc()),
            ("sub_selectors"@, sub_selection_doc()),
            ("notifications"@, entry_notifications_doc()),
        ],
    )
}

/// The description of one crawled site.
fn crawler_entry_docs() -> (r: DocNode)
    ensures
        r@ == crawler_entry_doc(),
{
    let run_children = vec![
        field("depth", leaf("爬蟲深度（抓取頁面層數）")),
        field("go_lnk", leaf("是否追蹤鏈結繼續抓取")),
        field("max_items_per_run", leaf("每次執行的最大抓取項目數")),
        field("incremental_update", leaf("是否啟用增量更新模式（只抓取新資料）")),
        field("user_agent", leaf("該入口使用的 User-Agent")),
    ];
    proof {
        lemma_doc_entries_view(run_children@);
        assert(doc_entries_view(run_children@) =~= entry_run_doc()->Node_1);
    }
    let run = node("入口的執行細節設定", run_children);
    let selectors_children = vec![
        field("item_selector", leaf("項目列表選取器（CSS selector）")),
        field("id_selector", leaf("項目唯一 ID 選取器")),
        field("category_selector", leaf("類別選取器（可選）")),
        field("source_selector", leaf("來源選取器（可選）")),
        field("title_selector", leaf("標題選取器")),
        field("link_selector", leaf("連結選取器")),
        field("time_selector", leaf("發布時間選取器")),
        field("tags_selector", leaf("標籤選取器（可選）")),
    ];
    proof {
        lemma_doc_entries_view(selectors_children@);
        assert(doc_entries_view(selectors_children@) =~= selection_doc()->Node_1);
    }
    let selectors = node("項目選取器設定，用於抓取列表頁資料", selectors_children);
    let sub_children = vec![
        field("full_content", leaf("文章全文選取器")),
        field("author_unit", leaf("作者或單位選取器")),
        field("attachments", leaf("附件列表選取器")),
        field("attachment_attr", leaf("附件屬性名稱，如 href、src")),
    ];
    proof {
        lemma_doc_entries_view(sub_children@);
        assert(doc_entries_view(sub_children@) =~= sub_selection_doc()->Node_1);
    }
    let sub = node("子內容選取器設定，用於抓取詳細頁資料", sub_children);
    let notify_children = vec![field("discord", discord_notification_docs())];
    proof {
        lemma_doc_entries_view(notify_children@);
        assert(doc_entries_view(notify_children@) =~= entry_notifications_doc()->Node_1);
    }
    let notifications = node("通知設定，用於爬蟲完成後推播通知", notify_children);
    let children = vec![
        field("name", leaf("該爬蟲入口名稱")),
        field("enabled", leaf("該爬蟲入口是否啟用")),
        field("url", leaf("爬蟲入口 URL")),
        field("cron", leaf("爬蟲排程 Cron 表達式")),
        field("timeout_ms", leaf("每次爬蟲執行的超時時間（毫秒）")),
        field("config", run),
        field("selectors", selectors),
        field("sub_selectors", sub),
        field("notifications", notifications),
    ];
    proof {
        lemma_doc_entries_view(children@);
        assert(doc_entries_view(children@) =~= crawler_entry_doc()->Node_1);
    }
    node("各個爬蟲入口的設定", children)
}

impl CrawlerConfig {
    /// The descriptions of the crawler settings.
    pub fn get_recursive_docs() -> (r: DocNode)
        ensures
            r@ is Node,
            doc_text(r@) == "主爬蟲設定"@,
            child_keys(r@) == seq!["enabled"@, "global_user_agent"@, "llm"@, "entries"@],
    {
        let llm = node(
            "LLM（大型語言模型）相關設定，用於內容分析或摘要",
            vec![
                field("enabled", leaf("是否啟用 LLM 功能")),
                field("api_url", leaf("LLM API URL")),
                field("model", leaf("使用的模型名稱")),
                field("api_key_env", leaf("存放 API Key 的環境變數名稱")),
                field("knowledge_base", leaf("知識庫列表，用於 LLM 的輔助參考")),
            ],
        );
        let children = vec![
            field("enabled", leaf("是否啟用爬蟲")),
            field("global_user_agent", leaf("全域的 User-Agent 字串，若 entry 未設定則使用此值")),
            field("llm", llm),
            field("entries", crawler_entry_docs()),
        ];
        proof {
            lemma_doc_entries_view(children@);
        }
        let r = node("主爬蟲設定", children);
        assert(child_keys(r@) =~= seq!["enabled"@, "global_user_agent"@, "llm"@, "entries"@]);
        r
    }
}

} // verus!
