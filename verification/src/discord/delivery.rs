//! The decisions of a delivery: which route a message takes and how an embed
//! is shaped for it. Sending is left to the caller.
use vstd::prelude::*;
use crate::text::{trim, trim_str, str_eq};
use crate::discord::types::{
    DiscordDeliveryTarget, DiscordEmbedField, DiscordEmbedPayload, fields_view, copy_fields,
};
use crate::discord::utils::MISSING_TARGET_ERROR;

verus! {

/// Where a message goes.
#[derive(Clone, Debug)]
pub enum Route {
    /// Posted to a webhook, under a name and an avatar where given.
    Webhook { url: String, username: Option<String>, avatar_url: Option<String> },
    /// Sent by the bot into a channel.
    Channel(u64),
}

pub open spec fn str_opt(o: Option<&str>) -> Option<Seq<char>> {
    match o {
        Some(s) => Some(s@),
        None => None,
    }
}

pub open spec fn string_opt(o: Option<String>) -> Option<Seq<char>> {
    match o {
        Some(s) => Some(s@),
        None => None,
    }
}

/// The avatar of a webhook post: the override, else the target's own when
/// it has one.
pub open spec fn avatar_choice(override_avatar: Option<Seq<char>>, target_avatar: Seq<char>) -> Option<
    Seq<char>,
> {
    match override_avatar {
        Some(a) => Some(a),
        None => if target_avatar.len() == 0 {
            None
        } else {
            Some(target_avatar)
        },
    }
}

/// The route a target gives: its webhook when it has one, else its channel,
/// else none.
pub open spec fn route_matches(
    r: Route,
    target: DiscordDeliveryTarget,
    username: Option<Seq<char>>,
    avatar_override: Option<Seq<char>>,
) -> bool {
    if target.webhook_url@.len() > 0 {
        match r {
            Route::Webhook { url, username: u, avatar_url } => url@ == target.webhook_url@
                && string_opt(u) == username && string_opt(avatar_url) == avatar_choice(
                avatar_override,
                target.webhook_avatar_url@,
            ),
            _ => false,
        }
    } else {
        r == Route::Channel(target.channel_id)
    }
}

fn to_string_opt(o: Option<&str>) -> (r: Option<String>)
    ensures
        string_opt(r) == str_opt(o),
{
    match o {
        Some(s) => Some(s.to_owned()),
        None => None,
    }
}

/// The route of a text, file or embed post. Fails with
/// [`MISSING_TARGET_ERROR`] when the target has neither a webhook nor a
/// channel.
pub fn plan_delivery(
    target: &DiscordDeliveryTarget,
    webhook_username: Option<&str>,
    webhook_avatar_override: Option<&str>,
) -> (r: Result<Route, String>)
    ensures
        match r {
            Ok(route) => (target.webhook_url@.len() > 0 || target.channel_id != 0) && route_matches(
                route,
                *target,
                str_opt(webhook_username),
                str_opt(webhook_avatar_override),
            ),
            Err(e) => target.webhook_url@.len() == 0 && target.channel_id == 0
                && e@ == MISSING_TARGET_ERROR@,
        },
{
    if !target.webhook_url.as_str().is_empty() {
        let avatar_url = match webhook_avatar_override {
            Some(a) => Some(a.to_owned()),
            None => if target.webhook_avatar_url.as_str().is_empty() {
                None
            } else {
                Some(target.webhook_avatar_url.clone())
            },
        };
        return Ok(
            Route::Webhook {
                url: target.webhook_url.clone(),
                username: to_string_opt(webhook_username),
                avatar_url,
            },
        );
    }
    if target.channel_id == 0 {
        return Err(MISSING_TARGET_ERROR.to_owned());
    }
    Ok(Route::Channel(target.channel_id))
}

/// An embed as it is sent.
#[derive(Clone, Debug)]
pub struct EmbedMessage {
    /// Text above the embed.
    pub content: Option<String>,
    pub title: String,
    pub description: String,
    /// The link of the title; none when blank.
    pub url: Option<String>,
    pub color: u32,
    /// The footer text; none when blank.
    pub footer: Option<String>,
    pub fields: Vec<DiscordEmbedField>,
}

pub open spec fn non_blank(s: Seq<char>) -> Option<Seq<char>> {
    if trim(s).len() == 0 {
        None
    } else {
        Some(s)
    }
}

/// The text above an embed: a webhook post carries it as given; a channel
/// post only when it is not blank.
pub open spec fn embed_content(content: Option<Seq<char>>, webhook: bool) -> Option<Seq<char>> {
    match content {
        Some(c) => if webhook {
            Some(c)
        } else {
            non_blank(c)
        },
        None => None,
    }
}

fn non_blank_exec(s: &String) -> (r: Option<String>)
    ensures
        string_opt(r) == non_blank(s@),
{
    let t = trim_str(s.as_str());
    if t.as_str().is_empty() {
        None
    } else {
        Some(s.clone())
    }
}

/// Shapes an embed for its route.
pub fn shape_embed(embed: &DiscordEmbedPayload, content: Option<&str>, route: &Route) -> (r:
    EmbedMessage)
    ensures
        string_opt(r.content) == embed_content(str_opt(content), route is Webhook),
        r.title@ == embed.title@,
        r.description@ == embed.description@,
        string_opt(r.url) == non_blank(embed.url@),
        r.color == embed.color,
        string_opt(r.footer) == non_blank(embed.footer@),
        fields_view(r.fields@) == fields_view(embed.fields@),
{
    let webhook = match route {
        Route::Webhook { .. } => true,
        Route::Channel(_) => false,
    };
    let shaped_content = match content {
        Some(c) => {
            if webhook {
                Some(c.to_owned())
            } else {
                let owned = c.to_owned();
                non_blank_exec(&owned)
            }
        },
        None => None,
    };
    EmbedMessage {
        content: shaped_content,
        title: embed.title.clone(),
        description: embed.description.clone(),
        url: non_blank_exec(&embed.url),
        color: embed.color,
        footer: non_blank_exec(&embed.footer),
        fields: copy_fields(&embed.fields),
    }
}

} // verus!
