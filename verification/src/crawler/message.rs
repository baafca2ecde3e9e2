//! The Discord message announcing a crawled post.
use vstd::prelude::*;
use crate::text::{
    trim, trim_str, join, join_strings, string_views, push_str, string_from_chars, chars_of,
};
use crate::template::{Value, SpecValue, CompiledTemplate, parse_template, render_template, nodes_fault};
use crate::config::{CrawlerEntryConfig, NotificationConfig, DiscordFieldConfig};
use crate::discord::types::{DiscordEmbedField, DiscordEmbedPayload, field_view, fields_view};
use crate::discord::delivery::string_opt;
use crate::crawler::types::{CrawledPost, LlmResult, LlmCalendarItem};

verus! {

/// A message ready to be posted.
#[derive(Clone, Debug)]
pub struct CrawlerDiscordMessage {
    pub webhook_username: Option<String>,
    pub content: Option<String>,
    pub embed: DiscordEmbedPayload,
}

// ---------------------------------------------------------------------------
// The texts of a message
// ---------------------------------------------------------------------------

/// The title: the model's when not blank, else the post's.
pub open spec fn title_spec(post_title: Seq<char>, llm_title: Seq<char>) -> Seq<char> {
    if trim(llm_title).len() == 0 {
        post_title
    } else {
        llm_title
    }
}

/// The summary: the model's when not blank, else the first 120 characters
/// of the content.
pub open spec fn summary_spec(content: Seq<char>, llm_summary: Seq<char>) -> Seq<char> {
    if trim(llm_summary).len() == 0 {
        if content.len() <= 120 {
            content
        } else {
            content.take(120)
        }
    } else {
        llm_summary
    }
}

/// The post's tags, then each of the model's tags that is not blank and not
/// already there.
pub open spec fn merge_tags(tags: Seq<Seq<char>>, extra: Seq<Seq<char>>) -> Seq<Seq<char>>
    decreases extra.len(),
{
    if extra.len() == 0 {
        tags
    } else {
        let acc = merge_tags(tags, extra.drop_last());
        let t = extra.last();
        if trim(t).len() > 0 && !acc.contains(t) {
            acc.push(t)
        } else {
            acc
        }
    }
}

/// `#` and each tag, trimmed, leaving out blank tags.
pub open spec fn hashtags(tags: Seq<Seq<char>>) -> Seq<Seq<char>>
    decreases tags.len(),
{
    if tags.len() == 0 {
        seq![]
    } else {
        let rest = hashtags(tags.drop_last());
        if trim(tags.last()).len() > 0 {
            rest.push("#"@ + trim(tags.last()))
        } else {
            rest
        }
    }
}

/// One line per dated event (`- date event`), leaving out items whose date
/// and event are both blank.
pub open spec fn calendar_lines(items: Seq<LlmCalendarItem>) -> Seq<Seq<char>>
    decreases items.len(),
{
    if items.len() == 0 {
        seq![]
    } else {
        let rest = calendar_lines(items.drop_last());
        let it = items.last();
        if trim(it.date@).len() > 0 || trim(it.event@).len() > 0 {
            rest.push("- "@ + trim(it.date@) + " "@ + trim(it.event@))
        } else {
            rest
        }
    }
}

/// The values the templates of a post are rendered against.
pub open spec fn post_context(
    entry: CrawlerEntryConfig,
    post: CrawledPost,
    llm: LlmResult,
) -> SpecValue {
    let tags = merge_tags(string_views(post.tags@), string_views(llm.tags@));
    SpecValue::Object(
        seq![
            ("entries_name"@, SpecValue::Text(entry.name@)),
            ("title"@, SpecValue::Text(title_spec(post.title@, llm.title@))),
            ("summary"@, SpecValue::Text(summary_spec(post.content@, llm.summary@))),
            ("analysis"@, SpecValue::Text(trim(llm.analysis@))),
            ("analysis_cn"@, SpecValue::Text(trim(llm.analysis_cn@))),
            ("content"@, SpecValue::Text(post.content@)),
            ("category"@, SpecValue::Text(post.category@)),
            ("source_name"@, SpecValue::Text(post.source_name@)),
            ("author_unit"@, SpecValue::Text(post.author_unit@)),
            ("url"@, SpecValue::Text(post.url@)),
            ("time"@, SpecValue::Text(post.time@)),
            ("tags"@, SpecValue::Text(join(hashtags(tags), " "@))),
            ("calendar"@, SpecValue::Text(join(calendar_lines(llm.calendar@), "\n"@))),
            ("attachments"@, SpecValue::Text(join(string_views(post.attachments@), "\n"@))),
        ],
    )
}

/// The configured fields, rendered, leaving out those whose name or value
/// is blank.
pub open spec fn rendered_fields(cfgs: Seq<DiscordFieldConfig>, ctx: SpecValue) -> Seq<
    (Seq<char>, Seq<char>, bool),
>
    decreases cfgs.len(),
{
    if cfgs.len() == 0 {
        seq![]
    } else {
        let rest = rendered_fields(cfgs.drop_last(), ctx);
        let f = cfgs.last();
        let name = render_template(f.name@, ctx);
        let value = render_template(f.value@, ctx);
        if trim(name).len() > 0 && trim(value).len() > 0 {
            rest.push((name, value, f.inline))
        } else {
            rest
        }
    }
}

/// Whether some field template cannot be rendered.
pub open spec fn fields_fault(cfgs: Seq<DiscordFieldConfig>, ctx: SpecValue) -> bool {
    exists|i: int|
        0 <= i < cfgs.len() && (nodes_fault(parse_template(cfgs[i].name@), ctx) || nodes_fault(
            parse_template(cfgs[i].value@),
            ctx,
        ))
}

/// Whether some template of the notification cannot be rendered (a `%`
/// time pattern the time formatter refuses).
pub open spec fn message_fault(n: NotificationConfig, ctx: SpecValue) -> bool {
    ||| nodes_fault(parse_template(n.discord.embed_title@), ctx)
    ||| fields_fault(n.discord.fields@, ctx)
    ||| (trim(n.discord.webhook_name_template@).len() > 0 && nodes_fault(
        parse_template(n.discord.webhook_name_template@),
        ctx,
    ))
}

/// The fields of the embed: the rendered fields, then the attachments under
/// `附件` when asked for and there are any.
pub open spec fn embed_fields_spec(n: NotificationConfig, post: CrawledPost, ctx: SpecValue) -> Seq<
    (Seq<char>, Seq<char>, bool),
> {
    let fs = rendered_fields(n.discord.fields@, ctx);
    if n.discord.include_attachments && post.attachments@.len() > 0 {
        fs.push(("附件"@, join(string_views(post.attachments@), "\n"@), false))
    } else {
        fs
    }
}

/// The message for a post.
pub open spec fn message_matches(
    m: CrawlerDiscordMessage,
    entry: CrawlerEntryConfig,
    n: NotificationConfig,
    post: CrawledPost,
    llm: LlmResult,
) -> bool {
    let ctx = post_context(entry, post, llm);
    &&& string_opt(m.webhook_username) == if trim(n.discord.webhook_name_template@).len() == 0 {
        None
    } else {
        Some(render_template(n.discord.webhook_name_template@, ctx))
    }
    &&& m.content is None
    &&& m.embed.title@ == render_template(n.discord.embed_title@, ctx)
    &&& m.embed.description@ == summary_spec(post.content@, llm.summary@)
    &&& m.embed.url@ == post.url@
    &&& m.embed.color == n.discord.embed_color
    &&& fields_view(m.embed.fields@) == embed_fields_spec(n, post, ctx)
    &&& m.embed.footer@ == if trim(post.time@).len() == 0 {
        Seq::<char>::empty()
    } else {
        "時間："@ + post.time@
    }
}

// ---------------------------------------------------------------------------
// The code
// ---------------------------------------------------------------------------

fn contains_string(v: &Vec<String>, s: &String) -> (r: bool)
    ensures
        r == string_views(v@).contains(s@),
{
    let mut i: usize = 0;
    while i < v.len()
        invariant
            i <= v@.len(),
            forall|j: int| 0 <= j < i ==> v@[j]@ != s@,
        decreases v@.len() - i,
    {
        if v[i] == *s {
            assert(string_views(v@)[i as int] == s@);
            return true;
        }
        i = i + 1;
    }
    assert(!string_views(v@).contains(s@)) by {
        if string_views(v@).contains(s@) {
            let k = choose|k: int| 0 <= k < string_views(v@).len() && string_views(v@)[k] == s@;
            assert(v@[k]@ == s@);
        }
    }
    false
}

fn copy_strings(v: &Vec<String>) -> (r: Vec<String>)
    ensures
        string_views(r@) == string_views(v@),
{
    let mut out: Vec<String> = Vec::new();
    let mut i: usize = 0;
    while i < v.len()
        invariant
            i <= v@.len(),
            string_views(out@) == string_views(v@).take(i as int),
        decreases v@.len() - i,
    {
        let ghost before = out@;
        out.push(v[i].clone());
        assert(string_views(out@) =~= string_views(before).push(v@[i as int]@));
        assert(string_views(v@).take(i + 1) =~= string_views(v@).take(i as int).push(v@[i as int]@));
        i = i + 1;
    }
    assert(string_views(v@).take(v@.len() as int) =~= string_views(v@));
    out
}

/// The post's tags with the model's new ones.
pub fn merged_tags(post_tags: &Vec<String>, llm_tags: &Vec<String>) -> (r: Vec<String>)
    ensures
        string_views(r@) == merge_tags(string_views(post_tags@), string_views(llm_tags@)),
{
    let mut tags = copy_strings(post_tags);
    let ghost base = string_views(post_tags@);
    let ghost extra = string_views(llm_tags@);
    let mut i: usize = 0;
    assert(extra.take(0).len() == 0);
    while i < llm_tags.len()
        invariant
            i <= llm_tags@.len(),
            extra == string_views(llm_tags@),
            string_views(tags@) == merge_tags(base, extra.take(i as int)),
        decreases llm_tags@.len() - i,
    {
        assert(extra.take(i + 1).drop_last() =~= extra.take(i as int));
        assert(extra.take(i + 1).last() == llm_tags@[i as int]@);
        let t = &llm_tags[i];
        let trimmed = trim_str(t.as_str());
        if !trimmed.as_str().is_empty() && !contains_string(&tags, t) {
            let ghost before = tags@;
            tags.push(t.clone());
            assert(string_views(tags@) =~= string_views(before).push(t@));
        }
        i = i + 1;
    }
    assert(extra.take(llm_tags@.len() as int) =~= extra);
    tags
}

/// The tags as one text: `#tag` for each, separated by spaces.
pub fn tags_text(tags: &Vec<String>) -> (r: String)
    ensures
        r@ == join(hashtags(string_views(tags@)), " "@),
{
    let ghost all = string_views(tags@);
    let mut parts: Vec<String> = Vec::new();
    let mut i: usize = 0;
    assert(all.take(0).len() == 0);
    while i < tags.len()
        invariant
            i <= tags@.len(),
            all == string_views(tags@),
            string_views(parts@) == hashtags(all.take(i as int)),
        decreases tags@.len() - i,
    {
        assert(all.take(i + 1).drop_last() =~= all.take(i as int));
        assert(all.take(i + 1).last() == tags@[i as int]@);
        let t = trim_str(tags[i].as_str());
        if !t.as_str().is_empty() {
            let mut out: Vec<char> = Vec::new();
            push_str(&mut out, "#");
            push_str(&mut out, t.as_str());
            let ghost before = parts@;
            parts.push(string_from_chars(out.as_slice()));
            assert(string_views(parts@) =~= string_views(before).push("#"@ + t@));
        }
        i = i + 1;
    }
    assert(all.take(tags@.len() as int) =~= all);
    join_strings(&parts, " ")
}

/// The dated events as one text, a line each.
pub fn calendar_text(items: &Vec<LlmCalendarItem>) -> (r: String)
    ensures
        r@ == join(calendar_lines(items@), "\n"@),
{
    let mut parts: Vec<String> = Vec::new();
    let mut i: usize = 0;
    assert(items@.take(0).len() == 0);
    while i < items.len()
        invariant
            i <= items@.len(),
            string_views(parts@) == calendar_lines(items@.take(i as int)),
        decreases items@.len() - i,
    {
        assert(items@.take(i + 1).drop_last() =~= items@.take(i as int));
        assert(items@.take(i + 1).last() == items@[i as int]);
        let d = trim_str(items[i].date.as_str());
        let e = trim_str(items[i].event.as_str());
        if !d.as_str().is_empty() || !e.as_str().is_empty() {
            let mut out: Vec<char> = Vec::new();
            push_str(&mut out, "- ");
            push_str(&mut out, d.as_str());
            push_str(&mut out, " ");
            push_str(&mut out, e.as_str());
            let ghost before = parts@;
            parts.push(string_from_chars(out.as_slice()));
            assert(string_views(parts@) =~= string_views(before).push("- "@ + d@ + " "@ + e@));
        }
        i = i + 1;
    }
    assert(items@.take(items@.len() as int) =~= items@);
    join_strings(&parts, "\n")
}

fn summary_exec(content: &String, llm_summary: &String) -> (r: String)
    ensures
        r@ == summary_spec(content@, llm_summary@),
{
    if trim_str(llm_summary.as_str()).as_str().is_empty() {
        let chars = chars_of(content.as_str());
        if chars.len() <= 120 {
            content.clone()
        } else {
            let head = vstd::slice::slice_subrange(chars.as_slice(), 0, 120);
            string_from_chars(head)
        }
    } else {
        llm_summary.clone()
    }
}

fn text_entry(key: &str, v: String) -> (r: (String, Value))
    ensures
        r.0@ == key@,
        r.1@ == SpecValue::Text(v@),
{
    (key.to_owned(), Value::Str(v))
}

/// The values the templates of a post are rendered against.
pub fn build_context(entry: &CrawlerEntryConfig, post: &CrawledPost, llm: &LlmResult) -> (r: Value)
    ensures
        r@ == post_context(*entry, *post, *llm),
{
    let title = if trim_str(llm.title.as_str()).as_str().is_empty() {
        post.title.clone()
    } else {
        llm.title.clone()
    };
    let tags = merged_tags(&post.tags, &llm.tags);
    let entries = vec![
        text_entry("entries_name", entry.name.clone()),
        text_entry("title", title),
        text_entry("summary", summary_exec(&post.content, &llm.summary)),
        text_entry("analysis", trim_str(llm.analysis.as_str())),
        text_entry("analysis_cn", trim_str(llm.analysis_cn.as_str())),
        text_entry("content", post.content.clone()),
        text_entry("category", post.category.clone()),
        text_entry("source_name", post.source_name.clone()),
        text_entry("author_unit", post.author_unit.clone()),
        text_entry("url", post.url.clone()),
        text_entry("time", post.time.clone()),
        text_entry("tags", tags_text(&tags)),
        text_entry("calendar", calendar_text(&llm.calendar)),
        text_entry("attachments", join_strings(&post.attachments, "\n")),
    ];
    proof {
        crate::template::lemma_entries_view(entries@);
        assert(crate::template::entries_view(entries@) =~= post_context(*entry, *post, *llm)->Object_0);
    }
    Value::Object(entries)
}

fn render_fields(cfgs: &Vec<DiscordFieldConfig>, ctx: &Value) -> (r: Option<Vec<DiscordEmbedField>>)
    ensures
        match r {
            Some(fs) => !fields_fault(cfgs@, ctx@) && fields_view(fs@) == rendered_fields(
                cfgs@,
                ctx@,
            ),
            None => fields_fault(cfgs@, ctx@),
        },
{
    let mut out: Vec<DiscordEmbedField> = Vec::new();
    let mut i: usize = 0;
    assert(cfgs@.take(0).len() == 0);
    while i < cfgs.len()
        invariant
            i <= cfgs@.len(),
            forall|j: int|
                0 <= j < i ==> !nodes_fault(parse_template(#[trigger] cfgs@[j].name@), ctx@)
                    && !nodes_fault(parse_template(cfgs@[j].value@), ctx@),
            fields_view(out@) == rendered_fields(cfgs@.take(i as int), ctx@),
        decreases cfgs@.len() - i,
    {
        assert(cfgs@.take(i + 1).drop_last() =~= cfgs@.take(i as int));
        assert(cfgs@.take(i + 1).last() == cfgs@[i as int]);
        let name = match CompiledTemplate::compile(cfgs[i].name.as_str()).try_render(ctx) {
            Some(s) => s,
            None => {
                return None;
            },
        };
        let value = match CompiledTemplate::compile(cfgs[i].value.as_str()).try_render(ctx) {
            Some(s) => s,
            None => {
                return None;
            },
        };
        if !trim_str(name.as_str()).as_str().is_empty() && !trim_str(value.as_str()).as_str().is_empty() {
            let ghost before = out@;
            out.push(DiscordEmbedField { name, value, inline: cfgs[i].inline });
            assert(fields_view(out@) =~= fields_view(before).push(field_view(out@.last())));
        }
        i = i + 1;
    }
    assert(cfgs@.take(cfgs@.len() as int) =~= cfgs@);
    Some(out)
}

/// The message for a post, or `None` where a template holds a time pattern
/// the time formatter refuses.
pub fn try_build_discord_message(
    entry: &CrawlerEntryConfig,
    notification: &NotificationConfig,
    post: &CrawledPost,
    llm: &LlmResult,
) -> (r: Option<CrawlerDiscordMessage>)
    ensures
        match r {
            Some(m) => !message_fault(*notification, post_context(*entry, *post, *llm))
                && message_matches(m, *entry, *notification, *post, *llm),
            None => message_fault(*notification, post_context(*entry, *post, *llm)),
        },
{
    let ctx = build_context(entry, post, llm);
    let d = &notification.discord;
    let embed_title = match CompiledTemplate::compile(d.embed_title.as_str()).try_render(&ctx) {
        Some(s) => s,
        None => {
            return None;
        },
    };
    let mut fields = match render_fields(&d.fields, &ctx) {
        Some(fs) => fs,
        None => {
            return None;
        },
    };
    if d.include_attachments && post.attachments.len() > 0 {
        let ghost before = fields@;
        fields.push(
            DiscordEmbedField {
                name: "附件".to_owned(),
                value: join_strings(&post.attachments, "\n"),
                inline: false,
            },
        );
        assert(fields_view(fields@) =~= fields_view(before).push(field_view(fields@.last())));
    }
    let webhook_username = if trim_str(d.webhook_name_template.as_str()).as_str().is_empty() {
        None
    } else {
        match CompiledTemplate::compile(d.webhook_name_template.as_str()).try_render(&ctx) {
            Some(s) => Some(s),
            None => {
                return None;
            },
        }
    };
    let footer = if trim_str(post.time.as_str()).as_str().is_empty() {
        String::new()
    } else {
        let mut out: Vec<char> = Vec::new();
        push_str(&mut out, "時間：");
        push_str(&mut out, post.time.as_str());
        string_from_chars(out.as_slice())
    };
    Some(
        CrawlerDiscordMessage {
            webhook_username,
            content: None,
            embed: DiscordEmbedPayload {
                title: embed_title,
                description: summary_exec(&post.content, &llm.summary),
                url: post.url.clone(),
                color: d.embed_color,
                fields,
                footer,
            },
        },
    )
}

/// The message for a post.
pub fn build_discord_message(
    entry: &CrawlerEntryConfig,
    notification: &NotificationConfig,
    post: &CrawledPost,
    llm: &LlmResult,
) -> (r: CrawlerDiscordMessage)
    requires
        !message_fault(*notification, post_context(*entry, *post, *llm)),
    ensures
        message_matches(r, *entry, *notification, *post, *llm),
{
    match try_build_discord_message(entry, notification, post, llm) {
        Some(m) => m,
        None => CrawlerDiscordMessage {
            webhook_username: None,
            content: None,
            embed: DiscordEmbedPayload {
                title: String::new(),
                description: String::new(),
                url: String::new(),
                color: 0,
                fields: Vec::new(),
                footer: String::new(),
            },
        },
    }
}

} // verus!
