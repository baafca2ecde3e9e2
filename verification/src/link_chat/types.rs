//! What a LINE webhook delivers, and where a group's messages go.
use vstd::prelude::*;

verus! {

/// Where an event came from.
#[derive(Clone, Debug)]
pub enum LineSource {
    User { user_id: String },
    Group { group_id: String, user_id: String },
    Room { room_id: String, user_id: String },
}

impl LineSource {
    /// The id of the user, group or room.
    pub open spec fn source_id_spec(&self) -> Seq<char> {
        match self {
            LineSource::User { user_id } => user_id@,
            LineSource::Group { group_id, .. } => group_id@,
            LineSource::Room { room_id, .. } => room_id@,
        }
    }

    /// The sender, when known: always for a user, when not empty otherwise.
    pub open spec fn sender_spec(&self) -> Option<Seq<char>> {
        match self {
            LineSource::User { user_id } => Some(user_id@),
            LineSource::Group { user_id, .. } => if user_id@.len() == 0 {
                None
            } else {
                Some(user_id@)
            },
            LineSource::Room { user_id, .. } => if user_id@.len() == 0 {
                None
            } else {
                Some(user_id@)
            },
        }
    }

    pub fn source_id(&self) -> (r: &str)
        ensures
            r@ == self.source_id_spec(),
    {
        match self {
            LineSource::User { user_id } => user_id.as_str(),
            LineSource::Group { group_id, .. } => group_id.as_str(),
            LineSource::Room { room_id, .. } => room_id.as_str(),
        }
    }

    pub fn sender_user_id(&self) -> (r: Option<&str>)
        ensures
            match r {
                Some(u) => self.sender_spec() == Some(u@),
                None => self.sender_spec() is None,
            },
    {
        match self {
            LineSource::User { user_id } => Some(user_id.as_str()),
            LineSource::Group { user_id, .. } => {
                if user_id.as_str().is_empty() {
                    None
                } else {
                    Some(user_id.as_str())
                }
            },
            LineSource::Room { user_id, .. } => {
                if user_id.as_str().is_empty() {
                    None
                } else {
                    Some(user_id.as_str())
                }
            },
        }
    }

    pub fn group_id(&self) -> (r: Option<&str>)
        ensures
            match r {
                Some(g) => self matches LineSource::Group { group_id, .. } && g@ == group_id@,
                None => !(self is Group),
            },
    {
        match self {
            LineSource::Group { group_id, .. } => Some(group_id.as_str()),
            _ => None,
        }
    }

    pub fn room_id(&self) -> (r: Option<&str>)
        ensures
            match r {
                Some(g) => self matches LineSource::Room { room_id, .. } && g@ == room_id@,
                None => !(self is Room),
            },
    {
        match self {
            LineSource::Room { room_id, .. } => Some(room_id.as_str()),
            _ => None,
        }
    }
}

/// The message of an event. The coordinates of a location are carried as
/// the text they are shown with.
#[derive(Clone, Debug)]
pub enum LineMessage {
    Text { text: String },
    Image { message_id: String },
    Video { message_id: String },
    Audio { message_id: String },
    File { message_id: String, file_name: String },
    Location { title: String, address: String, latitude: String, longitude: String },
    Sticker { sticker_id: String, sticker_resource_type: String },
    Unknown,
}

/// One webhook event.
#[derive(Clone, Debug)]
pub struct LineEvent {
    pub event_type: String,
    /// Milliseconds since the Unix epoch; 0 when absent.
    pub timestamp: i64,
    pub source: LineSource,
    pub message: Option<LineMessage>,
}

/// A member's LINE profile.
#[derive(Clone, Debug)]
pub struct MemberProfile {
    pub display_name: String,
    pub picture_url: String,
}

/// Where a LINE group's messages go on Discord, and how they are written.
#[derive(Clone, Debug)]
pub struct DeliveryTarget {
    pub discord_channel_id: u64,
    pub discord_webhook_url: String,
    pub discord_webhook_avatar_url: String,
    pub message_template: String,
    pub webhook_name_template: String,
    pub webhook_message_template: String,
}

/// The lifetime of cache entries: the configured seconds, at least one.
pub fn cache_ttl(cache_ttl_seconds: u64) -> (r: u64)
    ensures
        r == if cache_ttl_seconds < 1 { 1 } else { cache_ttl_seconds },
{
    if cache_ttl_seconds < 1 {
        1
    } else {
        cache_ttl_seconds
    }
}

} // verus!
