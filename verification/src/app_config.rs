//! The earlier, single-file form of the application settings (`config.toml`):
//! roles, the class roster and the LINE bridge, without crawler settings.
use vstd::prelude::*;
pub use crate::config::RoleConfig;

verus! {

/// Application settings of the single-file form.
#[derive(Clone, Debug)]
pub struct AppConfig {
    pub roles: RoleConfig,
    /// Class roster: student id to student name.
    pub class_students: Vec<(String, String)>,
    pub link_chat: LinkChatConfig,
}

/// LINE bridge settings of the single-file form.
#[derive(Clone, Debug)]
pub struct LinkChatConfig {
    pub enabled: bool,
    pub bind: String,
    pub line_channel_secret: String,
    pub line_channel_access_token: String,
    pub cache_ttl_seconds: u64,
    /// Routes by LINE group id.
    pub group_mapping: Vec<(String, GroupRouteConfig)>,
}

/// Where the messages of a LINE group go (single-file form).
#[derive(Clone, Debug)]
pub struct GroupRouteConfig {
    pub discord_channel_id: u64,
    pub discord_webhook_url: String,
    pub discord_webhook_avatar_url: String,
    pub message_template: String,
    pub webhook_name_template: String,
    pub webhook_message_template: String,
}

/// Default cache lifetime in seconds.
pub fn default_cache_ttl_seconds() -> (r: u64)
    ensures
        r == 300,
{
    300
}

impl Default for LinkChatConfig {
    fn default() -> (r: Self)
        ensures
            !r.enabled,
            r.bind@ == "0.0.0.0:8080"@,
            r.line_channel_secret@ == Seq::<char>::empty(),
            r.line_channel_access_token@ == Seq::<char>::empty(),
            r.cache_ttl_seconds == 300,
            r.group_mapping@.len() == 0,
    {
        LinkChatConfig {
            enabled: false,
            bind: String::from_str("0.0.0.0:8080"),
            line_channel_secret: String::new(),
            line_channel_access_token: String::new(),
            cache_ttl_seconds: default_cache_ttl_seconds(),
            group_mapping: Vec::new(),
        }
    }
}

impl Default for GroupRouteConfig {
    fn default() -> (r: Self)
        ensures
            r.discord_channel_id == 0,
            r.discord_webhook_url@ == Seq::<char>::empty(),
            r.discord_webhook_avatar_url@ == Seq::<char>::empty(),
            r.message_template@ == "{name} ({group}): {message}"@,
            r.webhook_name_template@ == "{name} ({group})"@,
            r.webhook_message_template@ == "{message}"@,
    {
        GroupRouteConfig {
            discord_channel_id: 0,
            discord_webhook_url: String::new(),
            discord_webhook_avatar_url: String::new(),
            message_template: String::from_str("{name} ({group}): {message}"),
            webhook_name_template: String::from_str("{name} ({group})"),
            webhook_message_template: String::from_str("{message}"),
        }
    }
}

} // verus!
