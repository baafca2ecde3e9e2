//! Which Discord target a LINE group's messages go to, and how they are
//! written there.
use vstd::prelude::*;
use crate::text::{trim, trim_str, str_eq};
use crate::config::{LinkChatConfig, GroupRouteConfig};
use crate::template::{
    Value, SpecValue, CompiledTemplate, parse_template, render_template, nodes_fault,
};
use crate::link_chat::types::DeliveryTarget;

verus! {

/// The values a message template is rendered against.
#[derive(Clone, Debug)]
pub struct TemplateContext {
    pub name: String,
    pub avatar: String,
    pub user_id: String,
    pub group_name: String,
    pub group_id: String,
    pub message: String,
    /// The event time as RFC 3339 text in UTC.
    pub timestamp: String,
}

/// A template context as a value: one text entry per field, under the
/// field's name, in the order of the fields.
pub open spec fn context_of(
    name: Seq<char>,
    avatar: Seq<char>,
    user_id: Seq<char>,
    group_name: Seq<char>,
    group_id: Seq<char>,
    message: Seq<char>,
    timestamp: Seq<char>,
) -> SpecValue {
    SpecValue::Object(
        seq![
            ("name"@, SpecValue::Text(name)),
            ("avatar"@, SpecValue::Text(avatar)),
            ("user_id"@, SpecValue::Text(user_id)),
            ("group_name"@, SpecValue::Text(group_name)),
            ("group_id"@, SpecValue::Text(group_id)),
            ("message"@, SpecValue::Text(message)),
            ("timestamp"@, SpecValue::Text(timestamp)),
        ],
    )
}

pub open spec fn context_value(c: TemplateContext) -> SpecValue {
    context_of(c.name@, c.avatar@, c.user_id@, c.group_name@, c.group_id@, c.message@, c.timestamp@)
}

fn text_entry(key: &str, v: &String) -> (r: (String, Value))
    ensures
        r.0@ == key@,
        r.1@ == SpecValue::Text(v@),
{
    (key.to_owned(), Value::Str(v.clone()))
}

impl TemplateContext {
    /// The context as a template value.
    pub fn to_value(&self) -> (r: Value)
        ensures
            r@ == context_value(*self),
    {
        let entries = vec![
            text_entry("name", &self.name),
            text_entry("avatar", &self.avatar),
            text_entry("user_id", &self.user_id),
            text_entry("group_name", &self.group_name),
            text_entry("group_id", &self.group_id),
            text_entry("message", &self.message),
            text_entry("timestamp", &self.timestamp),
        ];
        let r = Value::Object(entries);
        proof {
            crate::template::lemma_entries_view(entries@);
            assert(crate::template::entries_view(entries@) =~= context_value(*self)->Object_0);
        }
        r
    }
}

/// The route configured for a key (the first entry for it).
pub open spec fn route_for(mapping: Seq<(String, GroupRouteConfig)>, key: Seq<char>) -> Option<
    GroupRouteConfig,
>
    decreases mapping.len(),
{
    if mapping.len() == 0 {
        None
    } else if mapping[0].0@ == key {
        Some(mapping[0].1)
    } else {
        route_for(mapping.drop_first(), key)
    }
}

/// The route of a group: its own, else the catch-all `*`; none for an empty id.
pub open spec fn mapped_route(mapping: Seq<(String, GroupRouteConfig)>, group_id: Seq<char>) -> Option<
    GroupRouteConfig,
> {
    if group_id.len() == 0 {
        None
    } else {
        match route_for(mapping, group_id) {
            Some(r) => Some(r),
            None => route_for(mapping, "*"@),
        }
    }
}

/// A target made from a route: URLs trimmed, templates as written.
pub open spec fn target_from(t: DeliveryTarget, r: GroupRouteConfig) -> bool {
    &&& t.discord_channel_id == r.discord_channel_id
    &&& t.discord_webhook_url@ == trim(r.discord_webhook_url@)
    &&& t.discord_webhook_avatar_url@ == trim(r.discord_webhook_avatar_url@)
    &&& t.message_template@ == r.message_template@
    &&& t.webhook_name_template@ == r.webhook_name_template@
    &&& t.webhook_message_template@ == r.webhook_message_template@
}

/// Whether a route leads anywhere: a webhook or a channel.
pub open spec fn route_usable(r: GroupRouteConfig) -> bool {
    trim(r.discord_webhook_url@).len() > 0 || r.discord_channel_id != 0
}

fn find_route(mapping: &Vec<(String, GroupRouteConfig)>, key: &str) -> (r: Option<usize>)
    ensures
        match r {
            Some(i) => i < mapping@.len() && route_for(mapping@, key@) == Some(mapping@[i as int].1),
            None => route_for(mapping@, key@) is None,
        },
{
    let mut i: usize = 0;
    assert(mapping@.skip(0) =~= mapping@);
    while i < mapping.len()
        invariant
            i <= mapping@.len(),
            route_for(mapping@, key@) == route_for(mapping@.skip(i as int), key@),
        decreases mapping@.len() - i,
    {
        assert(mapping@.skip(i as int).drop_first() =~= mapping@.skip(i + 1));
        assert(mapping@.skip(i as int)[0] == mapping@[i as int]);
        if str_eq(mapping[i].0.as_str(), key) {
            return Some(i);
        }
        i = i + 1;
    }
    None
}

/// The delivery target of a LINE group, if its route leads anywhere.
pub fn resolve_target(link_chat: &LinkChatConfig, source_group_id: &str) -> (r: Option<DeliveryTarget>)
    ensures
        match mapped_route(link_chat.group_mapping@, source_group_id@) {
            Some(route) => if route_usable(route) {
                r matches Some(t) && target_from(t, route)
            } else {
                r is None
            },
            None => r is None,
        },
{
    if source_group_id.is_empty() {
        return None;
    }
    let idx = match find_route(&link_chat.group_mapping, source_group_id) {
        Some(i) => i,
        None => match find_route(&link_chat.group_mapping, "*") {
            Some(i) => i,
            None => {
                return None;
            },
        },
    };
    let mapped = &link_chat.group_mapping[idx].1;
    let webhook_url = trim_str(mapped.discord_webhook_url.as_str());
    let channel_id = mapped.discord_channel_id;
    if webhook_url.as_str().is_empty() && channel_id == 0 {
        return None;
    }
    Some(
        DeliveryTarget {
            discord_channel_id: channel_id,
            discord_webhook_url: webhook_url,
            discord_webhook_avatar_url: trim_str(mapped.discord_webhook_avatar_url.as_str()),
            message_template: mapped.message_template.clone(),
            webhook_name_template: mapped.webhook_name_template.clone(),
            webhook_message_template: mapped.webhook_message_template.clone(),
        },
    )
}

/// The template a message is written with: the webhook template for a
/// webhook target that has one, else the message template when not blank,
/// else `{name} ({group}): {message}`.
pub open spec fn message_template_of(t: DeliveryTarget) -> Seq<char> {
    if t.discord_webhook_url@.len() > 0 && trim(t.webhook_message_template@).len() > 0 {
        t.webhook_message_template@
    } else if trim(t.message_template@).len() > 0 {
        t.message_template@
    } else {
        "{name} ({group}): {message}"@
    }
}

/// The template of a forwarded message: the webhook message template only
/// when the target has a webhook and that template is not blank; else the
/// message template when it is not blank; else the standard
/// `{name} ({group}): {message}`. Without a webhook the webhook message
/// template is never used.
pub proof fn law_message_template_choice(t: DeliveryTarget)
    ensures
        t.discord_webhook_url@.len() > 0 && trim(t.webhook_message_template@).len() > 0
            ==> message_template_of(t) == t.webhook_message_template@,
        !(t.discord_webhook_url@.len() > 0 && trim(t.webhook_message_template@).len() > 0)
            && trim(t.message_template@).len() > 0 ==> message_template_of(t) == t.message_template@,
        !(t.discord_webhook_url@.len() > 0 && trim(t.webhook_message_template@).len() > 0)
            && trim(t.message_template@).len() == 0 ==> message_template_of(t)
            == "{name} ({group}): {message}"@,
{
}

pub fn message_template_choice(target: &DeliveryTarget) -> (r: &str)
    ensures
        r@ == message_template_of(*target),
{
    if !target.discord_webhook_url.as_str().is_empty() && !trim_str(
        target.webhook_message_template.as_str(),
    ).as_str().is_empty() {
        target.webhook_message_template.as_str()
    } else if !trim_str(target.message_template.as_str()).as_str().is_empty() {
        target.message_template.as_str()
    } else {
        "{name} ({group}): {message}"
    }
}

/// The webhook name of a post: none without a webhook; the sender's name
/// when the name template is blank; else the rendered template.
pub open spec fn webhook_name_for(t: DeliveryTarget, ctx: SpecValue, name: Seq<char>) -> Option<
    Seq<char>,
> {
    if t.discord_webhook_url@.len() == 0 {
        None
    } else if trim(t.webhook_name_template@).len() == 0 {
        Some(name)
    } else {
        Some(render_template(t.webhook_name_template@, ctx))
    }
}

pub open spec fn webhook_name_spec(t: DeliveryTarget, ctx: TemplateContext) -> Option<Seq<char>> {
    webhook_name_for(t, context_value(ctx), ctx.name@)
}

/// Whether the webhook name template cannot be rendered (a `%` time
/// pattern the time formatter refuses).
pub open spec fn webhook_name_fault_for(t: DeliveryTarget, ctx: SpecValue) -> bool {
    t.discord_webhook_url@.len() > 0 && trim(t.webhook_name_template@).len() > 0 && nodes_fault(
        parse_template(t.webhook_name_template@),
        ctx,
    )
}

pub open spec fn webhook_name_fault(t: DeliveryTarget, ctx: TemplateContext) -> bool {
    webhook_name_fault_for(t, context_value(ctx))
}

/// Whether the message template cannot be rendered.
pub open spec fn message_fault_for(t: DeliveryTarget, ctx: SpecValue) -> bool {
    nodes_fault(parse_template(message_template_of(t)), ctx)
}

pub open spec fn message_fault(t: DeliveryTarget, ctx: TemplateContext) -> bool {
    message_fault_for(t, context_value(ctx))
}

pub fn render_webhook_name(target: &DeliveryTarget, context: &TemplateContext) -> (r: Option<String>)
    requires
        !webhook_name_fault(*target, *context),
    ensures
        match r {
            Some(s) => webhook_name_spec(*target, *context) == Some(s@),
            None => webhook_name_spec(*target, *context) is None,
        },
{
    if target.discord_webhook_url.as_str().is_empty() {
        return None;
    }
    if trim_str(target.webhook_name_template.as_str()).as_str().is_empty() {
        return Some(context.name.clone());
    }
    let tpl = CompiledTemplate::compile(target.webhook_name_template.as_str());
    let ctx = context.to_value();
    Some(tpl.render(&ctx))
}

pub fn render_message_text(target: &DeliveryTarget, context: &TemplateContext) -> (r: String)
    requires
        !message_fault(*target, *context),
    ensures
        r@ == render_template(message_template_of(*target), context_value(*context)),
{
    let tpl = CompiledTemplate::compile(message_template_choice(target));
    let ctx = context.to_value();
    tpl.render(&ctx)
}

/// [`render_webhook_name`] where a refused time pattern gives `Err`.
pub fn try_render_webhook_name(target: &DeliveryTarget, context: &TemplateContext) -> (r: Result<
    Option<String>,
    (),
>)
    ensures
        match r {
            Ok(Some(s)) => !webhook_name_fault(*target, *context) && webhook_name_spec(
                *target,
                *context,
            ) == Some(s@),
            Ok(None) => !webhook_name_fault(*target, *context) && webhook_name_spec(
                *target,
                *context,
            ) is None,
            Err(_) => webhook_name_fault(*target, *context),
        },
{
    if target.discord_webhook_url.as_str().is_empty() {
        return Ok(None);
    }
    if trim_str(target.webhook_name_template.as_str()).as_str().is_empty() {
        return Ok(Some(context.name.clone()));
    }
    let tpl = CompiledTemplate::compile(target.webhook_name_template.as_str());
    let ctx = context.to_value();
    match tpl.try_render(&ctx) {
        Some(s) => Ok(Some(s)),
        None => Err(()),
    }
}

/// [`render_message_text`] where a refused time pattern gives `None`.
pub fn try_render_message_text(target: &DeliveryTarget, context: &TemplateContext) -> (r: Option<
    String,
>)
    ensures
        match r {
            Some(s) => !message_fault(*target, *context) && s@ == render_template(
                message_template_of(*target),
                context_value(*context),
            ),
            None => message_fault(*target, *context),
        },
{
    let tpl = CompiledTemplate::compile(message_template_choice(target));
    let ctx = context.to_value();
    tpl.try_render(&ctx)
}

} // verus!
