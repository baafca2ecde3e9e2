//! The decisions the webhook takes for a request and for each of its
//! events. Caches, LINE API calls and Discord posts are left to the caller,
//! which hands in what they gave.
use vstd::prelude::*;
use crate::text::{str_eq, push_str, string_from_chars, extend_chars, decimal, u64_to_chars};
use crate::clock::{rfc3339_of_millis, utc_millis_text};
use crate::config::LinkChatConfig;
use crate::discord::delivery::{string_opt, str_opt};
use crate::discord::utils::{is_missing_target_error, MISSING_TARGET_ERROR};
use crate::text::contains_seq;
use crate::template::render_template;
use crate::link_chat::types::{LineSource, LineMessage, LineEvent, MemberProfile, DeliveryTarget};
use crate::link_chat::line_api::{signature_valid, verify_line_signature, sticker_url_spec, build_sticker_preview_url};
use crate::link_chat::routing::{
    TemplateContext, context_of, context_value, mapped_route, route_usable, target_from,
    resolve_target, message_template_of, webhook_name_for, webhook_name_fault_for,
    message_fault_for, try_render_message_text, try_render_webhook_name,
};

verus! {

// ---------------------------------------------------------------------------
// The request
// ---------------------------------------------------------------------------

/// The status answered before any event is read: 204 while the bridge is
/// off, 503 while the channel secret or access token is missing.
pub open spec fn precheck_spec(cfg: LinkChatConfig) -> Option<u16> {
    if !cfg.enabled {
        Some(204)
    } else if cfg.line_channel_secret@.len() == 0 || cfg.line_channel_access_token@.len() == 0 {
        Some(503)
    } else {
        None
    }
}

pub fn webhook_precheck(cfg: &LinkChatConfig) -> (r: Option<u16>)
    ensures
        r == precheck_spec(*cfg),
{
    if !cfg.enabled {
        Some(204)
    } else if cfg.line_channel_secret.as_str().is_empty()
        || cfg.line_channel_access_token.as_str().is_empty() {
        Some(503)
    } else {
        None
    }
}

/// The status answered for a missing or wrong signature: 401; `None` when
/// the signature holds.
pub fn signature_check(secret: &str, body: &[u8], header: Option<&str>) -> (r: Option<u16>)
    ensures
        r == match header {
            Some(h) => if signature_valid(secret@, body@, h@) {
                None
            } else {
                Some(401u16)
            },
            None => Some(401u16),
        },
{
    match header {
        Some(h) => {
            if verify_line_signature(secret, body, h) {
                None
            } else {
                Some(401)
            }
        },
        None => Some(401),
    }
}

/// The id a request is logged under when it carries none: `linkchat-` and
/// a sequence number.
pub fn request_id_text(seq: u64) -> (r: String)
    ensures
        r@ == "linkchat-"@ + decimal(seq as nat),
{
    let mut out: Vec<char> = Vec::new();
    push_str(&mut out, "linkchat-");
    let digits = u64_to_chars(seq);
    extend_chars(&mut out, digits.as_slice());
    string_from_chars(out.as_slice())
}

/// The request id a request brings, if not empty.
pub fn given_request_id(header: Option<&str>) -> (r: Option<String>)
    ensures
        match header {
            Some(h) => if h@.len() > 0 {
                string_opt(r) == Some(h@)
            } else {
                r is None
            },
            None => r is None,
        },
{
    match header {
        Some(h) => if h.is_empty() {
            None
        } else {
            Some(h.to_owned())
        },
        None => None,
    }
}

// ---------------------------------------------------------------------------
// Who sent an event
// ---------------------------------------------------------------------------

/// The name shown for a chat before its real name is known.
pub open spec fn default_group_name_spec(source: LineSource) -> Seq<char> {
    match source {
        LineSource::User { .. } => "DM"@,
        LineSource::Group { .. } => "Unknown Group"@,
        LineSource::Room { .. } => "Unknown Room"@,
    }
}

pub fn default_group_name(source: &LineSource) -> (r: String)
    ensures
        r@ == default_group_name_spec(*source),
{
    match source {
        LineSource::User { .. } => "DM".to_owned(),
        LineSource::Group { .. } => "Unknown Group".to_owned(),
        LineSource::Room { .. } => "Unknown Room".to_owned(),
    }
}

/// The name of a chat: a direct chat is `DM`; a group or room takes its
/// cached name, else a fetched name that is not empty, else its default.
pub open spec fn group_name_spec(
    source: LineSource,
    cached: Option<Seq<char>>,
    fetched: Option<Seq<char>>,
) -> Seq<char> {
    if source is User {
        "DM"@
    } else {
        match cached {
            Some(c) => c,
            None => match fetched {
                Some(f) => if f.len() > 0 {
                    f
                } else {
                    default_group_name_spec(source)
                },
                None => default_group_name_spec(source),
            },
        }
    }
}

pub fn resolve_group_name(source: &LineSource, cached: Option<&str>, fetched: Option<&str>) -> (r:
    String)
    ensures
        r@ == group_name_spec(*source, str_opt(cached), str_opt(fetched)),
{
    if let LineSource::User { .. } = source {
        return "DM".to_owned();
    }
    match cached {
        Some(c) => c.to_owned(),
        None => match fetched {
            Some(f) => if f.is_empty() {
                default_group_name(source)
            } else {
                f.to_owned()
            },
            None => default_group_name(source),
        },
    }
}

/// The key a sender's profile is cached under.
pub open spec fn profile_cache_key_spec(source: LineSource, user_id: Seq<char>) -> Seq<char> {
    match source {
        LineSource::Group { group_id, .. } => "group:"@ + group_id@ + ":"@ + user_id,
        LineSource::Room { room_id, .. } => "room:"@ + room_id@ + ":"@ + user_id,
        LineSource::User { .. } => "user:"@ + user_id,
    }
}

pub fn profile_cache_key(source: &LineSource, user_id: &str) -> (r: String)
    ensures
        r@ == profile_cache_key_spec(*source, user_id@),
{
    let mut out: Vec<char> = Vec::new();
    match source {
        LineSource::Group { group_id, .. } => {
            push_str(&mut out, "group:");
            push_str(&mut out, group_id.as_str());
            push_str(&mut out, ":");
        },
        LineSource::Room { room_id, .. } => {
            push_str(&mut out, "room:");
            push_str(&mut out, room_id.as_str());
            push_str(&mut out, ":");
        },
        LineSource::User { .. } => {
            push_str(&mut out, "user:");
        },
    }
    push_str(&mut out, user_id);
    string_from_chars(out.as_slice())
}

/// Where a sender's profile is asked for first. A failed group or room
/// member lookup is followed by a user profile lookup.
#[derive(Clone, Debug)]
pub enum ProfileFetch {
    GroupMember { group_id: String, user_id: String },
    RoomMember { room_id: String, user_id: String },
    User { user_id: String },
}

pub fn profile_fetch_plan(source: &LineSource, user_id: &str) -> (r: ProfileFetch)
    ensures
        match (*source, r) {
            (LineSource::Group { group_id, .. }, ProfileFetch::GroupMember { group_id: g, user_id: u }) =>
                g@ == group_id@ && u@ == user_id@,
            (LineSource::Room { room_id, .. }, ProfileFetch::RoomMember { room_id: g, user_id: u }) =>
                g@ == room_id@ && u@ == user_id@,
            (LineSource::User { .. }, ProfileFetch::User { user_id: u }) => u@ == user_id@,
            _ => false,
        },
{
    match source {
        LineSource::Group { group_id, .. } => ProfileFetch::GroupMember {
            group_id: group_id.clone(),
            user_id: user_id.to_owned(),
        },
        LineSource::Room { room_id, .. } => ProfileFetch::RoomMember {
            room_id: room_id.clone(),
            user_id: user_id.to_owned(),
        },
        LineSource::User { .. } => ProfileFetch::User { user_id: user_id.to_owned() },
    }
}

/// The sender's shown name and avatar: from the profile when one was had
/// (`Unknown Sender` for an empty name), `Unknown User` otherwise.
pub open spec fn sender_spec(has_sender: bool, profile: Option<MemberProfile>) -> (Seq<char>, Option<
    Seq<char>,
>) {
    if !has_sender {
        ("Unknown User"@, None)
    } else {
        match profile {
            Some(p) => (
                if p.display_name@.len() > 0 {
                    p.display_name@
                } else {
                    "Unknown Sender"@
                },
                if p.picture_url@.len() > 0 {
                    Some(p.picture_url@)
                } else {
                    None
                },
            ),
            None => ("Unknown User"@, None),
        }
    }
}

pub fn sender_identity(has_sender: bool, profile: Option<&MemberProfile>) -> (r: (String, Option<String>))
    ensures
        (r.0@, string_opt(r.1)) == sender_spec(
            has_sender,
            match profile {
                Some(p) => Some(*p),
                None => None,
            },
        ),
{
    if !has_sender {
        return ("Unknown User".to_owned(), None);
    }
    match profile {
        Some(p) => {
            let name = if p.display_name.as_str().is_empty() {
                "Unknown Sender".to_owned()
            } else {
                p.display_name.clone()
            };
            let avatar = if p.picture_url.as_str().is_empty() {
                None
            } else {
                Some(p.picture_url.clone())
            };
            (name, avatar)
        },
        None => ("Unknown User".to_owned(), None),
    }
}

// ---------------------------------------------------------------------------
// What is posted for an event
// ---------------------------------------------------------------------------

/// The template context of an event.
pub fn make_template_context(
    sender_name: &str,
    avatar: &str,
    user_id: &str,
    group_name: &str,
    source_id: &str,
    message: &str,
    timestamp: &str,
) -> (r: TemplateContext)
    ensures
        context_value(r) == context_of(
            sender_name@,
            avatar@,
            user_id@,
            group_name@,
            source_id@,
            message@,
            timestamp@,
        ),
        r.name@ == sender_name@,
{
    TemplateContext {
        name: sender_name.to_owned(),
        avatar: avatar.to_owned(),
        user_id: user_id.to_owned(),
        group_name: group_name.to_owned(),
        group_id: source_id.to_owned(),
        message: message.to_owned(),
        timestamp: timestamp.to_owned(),
    }
}

/// The text of an instant, empty outside chrono's range.
pub open spec fn instant_text(millis: i64) -> Seq<char> {
    match rfc3339_of_millis(millis) {
        Some(t) => t,
        None => seq![],
    }
}

/// The time of a text event: its own timestamp when positive and in range,
/// else the present.
pub open spec fn event_time_text(timestamp: i64, now: i64) -> Seq<char> {
    if timestamp > 0 && rfc3339_of_millis(timestamp) is Some {
        rfc3339_of_millis(timestamp).unwrap()
    } else {
        instant_text(now)
    }
}

fn instant_text_exec(millis: i64) -> (r: String)
    ensures
        r@ == instant_text(millis),
{
    match utc_millis_text(millis) {
        Some(t) => t,
        None => String::new(),
    }
}

fn event_time_exec(timestamp: i64, now: i64) -> (r: String)
    ensures
        r@ == event_time_text(timestamp, now),
{
    if timestamp > 0 {
        match utc_millis_text(timestamp) {
            Some(t) => {
                return t;
            },
            None => {},
        }
    }
    instant_text_exec(now)
}

/// What an event leads to.
#[derive(Clone, Debug)]
pub enum EventPlan {
    /// Nothing is posted.
    Skip,
    /// A text is posted to the target.
    SendText { target: DeliveryTarget, content: String, webhook_name: Option<String> },
    /// The content of a message is downloaded and posted as a file.
    SendContent {
        target: DeliveryTarget,
        message_id: String,
        caption: String,
        filename: String,
        webhook_name: Option<String>,
    },
    /// A template holds a time pattern the time formatter refuses; rendering
    /// cannot go on.
    TemplateFault { target: DeliveryTarget },
}

/// A plan that posts `content` as text.
pub open spec fn text_plan(
    p: EventPlan,
    t: DeliveryTarget,
    ctx: crate::template::SpecValue,
    sender: Seq<char>,
    content: Seq<char>,
) -> bool {
    if webhook_name_fault_for(t, ctx) {
        p == EventPlan::TemplateFault { target: t }
    } else {
        match p {
            EventPlan::SendText { target, content: c, webhook_name } => target == t && c@ == content
                && string_opt(webhook_name) == webhook_name_for(t, ctx, sender),
            _ => false,
        }
    }
}

/// A plan that posts the content of message `id` as a file named `filename`.
pub open spec fn content_plan(
    p: EventPlan,
    t: DeliveryTarget,
    ctx: crate::template::SpecValue,
    sender: Seq<char>,
    id: Seq<char>,
    filename: Seq<char>,
) -> bool {
    if webhook_name_fault_for(t, ctx) {
        p == EventPlan::TemplateFault { target: t }
    } else {
        match p {
            EventPlan::SendContent { target, message_id, caption, filename: f, webhook_name } => target
                == t && message_id@ == id && caption@.len() == 0 && f@ == filename && string_opt(
                webhook_name,
            ) == webhook_name_for(t, ctx, sender),
            _ => false,
        }
    }
}

/// The text posted for a location.
pub open spec fn location_text(
    title: Seq<char>,
    address: Seq<char>,
    latitude: Seq<char>,
    longitude: Seq<char>,
) -> Seq<char> {
    "[位置] "@ + title + " "@ + address + " ("@ + latitude + ", "@ + longitude + ")"@
}

/// The plan for a message, given the target, the sender's shown name and
/// avatar, the sender's id, the chat's name and id, the event's timestamp
/// and the present. A text is written with the message template; media go
/// as files; locations, stickers and unknown messages as plain text.
pub open spec fn message_plan_spec(
    p: EventPlan,
    t: DeliveryTarget,
    m: LineMessage,
    sender: Seq<char>,
    avatar: Seq<char>,
    user: Seq<char>,
    group: Seq<char>,
    source: Seq<char>,
    event_timestamp: i64,
    now: i64,
) -> bool {
    let blank = context_of(sender, avatar, user, group, source, seq![], instant_text(now));
    match m {
        LineMessage::Text { text } => {
            let ctx = context_of(
                sender,
                avatar,
                user,
                group,
                source,
                text@,
                event_time_text(event_timestamp, now),
            );
            if message_fault_for(t, ctx) || webhook_name_fault_for(t, ctx) {
                p == EventPlan::TemplateFault { target: t }
            } else {
                text_plan(p, t, ctx, sender, render_template(message_template_of(t), ctx))
            }
        },
        LineMessage::Image { message_id } => content_plan(
            p,
            t,
            blank,
            sender,
            message_id@,
            "line_image_"@ + message_id@ + ".jpg"@,
        ),
        LineMessage::Video { message_id } => content_plan(
            p,
            t,
            blank,
            sender,
            message_id@,
            "line_video_"@ + message_id@ + ".mp4"@,
        ),
        LineMessage::Audio { message_id } => content_plan(
            p,
            t,
            blank,
            sender,
            message_id@,
            "line_audio_"@ + message_id@ + ".m4a"@,
        ),
        LineMessage::File { message_id, file_name } => content_plan(
            p,
            t,
            blank,
            sender,
            message_id@,
            if file_name@.len() == 0 {
                "line_file_"@ + message_id@ + ".bin"@
            } else {
                file_name@
            },
        ),
        LineMessage::Location { title, address, latitude, longitude } => {
            let text = location_text(title@, address@, latitude@, longitude@);
            text_plan(
                p,
                t,
                context_of(sender, avatar, user, group, source, text, instant_text(now)),
                sender,
                text,
            )
        },
        LineMessage::Sticker { sticker_id, sticker_resource_type } => {
            let preview = sticker_url_spec(sticker_id@, sticker_resource_type@);
            text_plan(
                p,
                t,
                context_of(sender, avatar, user, group, source, preview, instant_text(now)),
                sender,
                preview,
            )
        },
        LineMessage::Unknown => text_plan(
            p,
            t,
            context_of(sender, avatar, user, group, source, "[未知訊息型別]"@, instant_text(now)),
            sender,
            "[未知訊息型別]"@,
        ),
    }
}

fn join3(a: &str, b: &str, c: &str) -> (r: String)
    ensures
        r@ == a@ + b@ + c@,
{
    let mut out: Vec<char> = Vec::new();
    push_str(&mut out, a);
    push_str(&mut out, b);
    push_str(&mut out, c);
    string_from_chars(out.as_slice())
}

fn plan_text_post(target: DeliveryTarget, context: &TemplateContext, content: String) -> (r: EventPlan)
    ensures
        text_plan(r, target, context_value(*context), context.name@, content@),
        plan_target(r) == Some(target),
{
    match try_render_webhook_name(&target, context) {
        Ok(webhook_name) => EventPlan::SendText { target, content, webhook_name },
        Err(_) => EventPlan::TemplateFault { target },
    }
}

fn plan_content_post(
    target: DeliveryTarget,
    context: &TemplateContext,
    message_id: &String,
    filename: String,
) -> (r: EventPlan)
    ensures
        content_plan(r, target, context_value(*context), context.name@, message_id@, filename@),
        plan_target(r) == Some(target),
{
    match try_render_webhook_name(&target, context) {
        Ok(webhook_name) => EventPlan::SendContent {
            target,
            message_id: message_id.clone(),
            caption: String::new(),
            filename,
            webhook_name,
        },
        Err(_) => EventPlan::TemplateFault { target },
    }
}

/// The plan for a message bound for `target`.
pub fn plan_message(
    target: DeliveryTarget,
    message: &LineMessage,
    sender_name: &str,
    avatar: &str,
    user_id: &str,
    group_name: &str,
    source_id: &str,
    event_timestamp: i64,
    now_millis: i64,
) -> (r: EventPlan)
    ensures
        message_plan_spec(
            r,
            target,
            *message,
            sender_name@,
            avatar@,
            user_id@,
            group_name@,
            source_id@,
            event_timestamp,
            now_millis,
        ),
        plan_target(r) == Some(target),
{
    match message {
        LineMessage::Text { text } => {
            let time = event_time_exec(event_timestamp, now_millis);
            let context = make_template_context(
                sender_name,
                avatar,
                user_id,
                group_name,
                source_id,
                text.as_str(),
                time.as_str(),
            );
            match try_render_message_text(&target, &context) {
                Some(content) => plan_text_post(target, &context, content),
                None => EventPlan::TemplateFault { target },
            }
        },
        LineMessage::Image { message_id } => {
            let now = instant_text_exec(now_millis);
            let empty = String::new();
            let context = make_template_context(
                sender_name,
                avatar,
                user_id,
                group_name,
                source_id,
                empty.as_str(),
                now.as_str(),
            );
            let filename = join3("line_image_", message_id.as_str(), ".jpg");
            plan_content_post(target, &context, message_id, filename)
        },
        LineMessage::Video { message_id } => {
            let now = instant_text_exec(now_millis);
            let empty = String::new();
            let context = make_template_context(
                sender_name,
                avatar,
                user_id,
                group_name,
                source_id,
                empty.as_str(),
                now.as_str(),
            );
            let filename = join3("line_video_", message_id.as_str(), ".mp4");
            plan_content_post(target, &context, message_id, filename)
        },
        LineMessage::Audio { message_id } => {
            let now = instant_text_exec(now_millis);
            let empty = String::new();
            let context = make_template_context(
                sender_name,
                avatar,
                user_id,
                group_name,
                source_id,
                empty.as_str(),
                now.as_str(),
            );
            let filename = join3("line_audio_", message_id.as_str(), ".m4a");
            plan_content_post(target, &context, message_id, filename)
        },
        LineMessage::File { message_id, file_name } => {
            let now = instant_text_exec(now_millis);
            let empty = String::new();
            let context = make_template_context(
                sender_name,
                avatar,
                user_id,
                group_name,
                source_id,
                empty.as_str(),
                now.as_str(),
            );
            let filename = if file_name.as_str().is_empty() {
                join3("line_file_", message_id.as_str(), ".bin")
            } else {
                file_name.clone()
            };
            plan_content_post(target, &context, message_id, filename)
        },
        LineMessage::Location { title, address, latitude, longitude } => {
            let mut out: Vec<char> = Vec::new();
            push_str(&mut out, "[位置] ");
            push_str(&mut out, title.as_str());
            push_str(&mut out, " ");
            push_str(&mut out, address.as_str());
            push_str(&mut out, " (");
            push_str(&mut out, latitude.as_str());
            push_str(&mut out, ", ");
            push_str(&mut out, longitude.as_str());
            push_str(&mut out, ")");
            let text = string_from_chars(out.as_slice());
            let now = instant_text_exec(now_millis);
            let context = make_template_context(
                sender_name,
                avatar,
                user_id,
                group_name,
                source_id,
                text.as_str(),
                now.as_str(),
            );
            plan_text_post(target, &context, text)
        },
        LineMessage::Sticker { sticker_id, sticker_resource_type } => {
            let preview = build_sticker_preview_url(
                sticker_id.as_str(),
                sticker_resource_type.as_str(),
            );
            let now = instant_text_exec(now_millis);
            let context = make_template_context(
                sender_name,
                avatar,
                user_id,
                group_name,
                source_id,
                preview.as_str(),
                now.as_str(),
            );
            plan_text_post(target, &context, preview)
        },
        LineMessage::Unknown => {
            let text = "[未知訊息型別]".to_owned();
            let now = instant_text_exec(now_millis);
            let context = make_template_context(
                sender_name,
                avatar,
                user_id,
                group_name,
                source_id,
                text.as_str(),
                now.as_str(),
            );
            plan_text_post(target, &context, text)
        },
    }
}

/// Whether an event is passed over: not a message, from no chat, without a
/// message, or from a chat whose route leads nowhere.
pub open spec fn event_skipped(event: LineEvent, cfg: LinkChatConfig) -> bool {
    let source = event.source.source_id_spec();
    event.event_type@ != "message"@ || source.len() == 0 || event.message is None || match mapped_route(
        cfg.group_mapping@,
        source,
    ) {
        Some(route) => !route_usable(route),
        None => true,
    }
}

pub open spec fn plan_target(p: EventPlan) -> Option<DeliveryTarget> {
    match p {
        EventPlan::Skip => None,
        EventPlan::SendText { target, .. } => Some(target),
        EventPlan::SendContent { target, .. } => Some(target),
        EventPlan::TemplateFault { target } => Some(target),
    }
}

/// The plan for one event, given the sender's shown name and avatar, the
/// chat's name and the present (milliseconds since the Unix epoch).
pub fn plan_event(
    event: &LineEvent,
    link_chat: &LinkChatConfig,
    sender_name: &str,
    avatar: Option<&str>,
    group_name: &str,
    now_millis: i64,
) -> (r: EventPlan)
    ensures
        (r is Skip) == event_skipped(*event, *link_chat),
        !event_skipped(*event, *link_chat) ==> (plan_target(r) matches Some(t) && target_from(
            t,
            mapped_route(link_chat.group_mapping@, event.source.source_id_spec()).unwrap(),
        ) && message_plan_spec(
            r,
            t,
            event.message.unwrap(),
            sender_name@,
            match str_opt(avatar) {
                Some(a) => a,
                None => seq![],
            },
            match event.source.sender_spec() {
                Some(u) => u,
                None => seq![],
            },
            group_name@,
            event.source.source_id_spec(),
            event.timestamp,
            now_millis,
        )),
{
    let source_id = event.source.source_id();
    if !str_eq(event.event_type.as_str(), "message") || source_id.is_empty() {
        return EventPlan::Skip;
    }
    let message = match &event.message {
        Some(m) => m,
        None => {
            return EventPlan::Skip;
        },
    };
    let target = match resolve_target(link_chat, source_id) {
        Some(t) => t,
        None => {
            return EventPlan::Skip;
        },
    };
    let user_id = match event.source.sender_user_id() {
        Some(u) => u,
        None => "",
    };
    let avatar_text = match avatar {
        Some(a) => a,
        None => "",
    };
    proof {
        reveal_strlit("");
        assert(""@ =~= Seq::<char>::empty());
    }
    let ghost tg = target;
    let r = plan_message(
        target,
        message,
        sender_name,
        avatar_text,
        user_id,
        group_name,
        source_id,
        event.timestamp,
        now_millis,
    );
    assert(!(r is Skip));
    assert(plan_target(r) == Some(tg));
    assert(user_id@ == match event.source.sender_spec() {
        Some(u) => u,
        None => seq![],
    });
    assert(avatar_text@ == match str_opt(avatar) {
        Some(a) => a,
        None => seq![],
    });
    r
}

// ---------------------------------------------------------------------------
// Posting
// ---------------------------------------------------------------------------

/// The text posted instead of a file when a message has no id.
pub fn missing_content_text(caption: &str) -> (r: String)
    ensures
        r@ == caption@ + "（缺少 message id，無法下載內容）"@,
{
    let mut out: Vec<char> = Vec::new();
    push_str(&mut out, caption);
    push_str(&mut out, "（缺少 message id，無法下載內容）");
    string_from_chars(out.as_slice())
}

/// The status a failed post is answered with: 503 when the target is
/// missing, else 502.
pub fn delivery_error_status(error: &str) -> (r: u16)
    ensures
        r == if contains_seq(error@, MISSING_TARGET_ERROR@) {
            503u16
        } else {
            502u16
        },
{
    if is_missing_target_error(error) {
        503
    } else {
        502
    }
}

} // verus!
