//! The LINE Messaging API as the bridge uses it: request signatures, the
//! endpoints it reads, and the names given to downloaded content.
use vstd::prelude::*;
use hmac::Mac;
use base64::Engine;
use crate::text::{
    str_eq, chars_of, push_str, string_from_chars, split_on, split_chars, trim, trim_chars,
    contains_seq, str_contains, lemma_split_on_len,
};

verus! {

/// HMAC-SHA256 of a message under a key (the key taken as its UTF-8 bytes),
/// or `None` where the key is refused.
pub uninterp spec fn hmac_sha256_digest(key: Seq<char>, message: Seq<u8>) -> Option<Seq<u8>>;

/// The standard Base64 text (with padding) of some bytes.
pub uninterp spec fn base64_standard_text(bytes: Seq<u8>) -> Seq<char>;

/// `hmac::Hmac::<sha2::Sha256>::new_from_slice`, `update` and `finalize`:
/// the digest of `message` under `key`, or `None` where `new_from_slice`
/// refuses the key. The digest is named, not restated.
#[verifier::external_body]
fn hmac_sha256(key: &str, message: &[u8]) -> (r: Option<Vec<u8>>)
    ensures
        match r {
            Some(d) => hmac_sha256_digest(key@, message@) == Some(d@),
            None => hmac_sha256_digest(key@, message@) is None,
        },
{
    match hmac::Hmac::<sha2::Sha256>::new_from_slice(key.as_bytes()) {
        Ok(mut mac) => {
            mac.update(message);
            Some(mac.finalize().into_bytes().to_vec())
        },
        Err(_) => None,
    }
}

/// `base64::engine::general_purpose::STANDARD.encode`: the standard
/// alphabet with padding. The text is named, not restated.
#[verifier::external_body]
fn base64_encode(bytes: &[u8]) -> (r: String)
    ensures
        r@ == base64_standard_text(bytes@),
{
    base64::engine::general_purpose::STANDARD.encode(bytes)
}

/// Whether a request body carries the signature LINE computes with the
/// channel secret: the Base64 text of its HMAC-SHA256.
pub open spec fn signature_valid(secret: Seq<char>, body: Seq<u8>, expected: Seq<char>) -> bool {
    match hmac_sha256_digest(secret, body) {
        Some(d) => base64_standard_text(d) == expected,
        None => false,
    }
}

pub fn verify_line_signature(secret: &str, body: &[u8], expected_signature: &str) -> (r: bool)
    ensures
        r == signature_valid(secret@, body@, expected_signature@),
{
    match hmac_sha256(secret, body) {
        Some(digest) => {
            let signature = base64_encode(digest.as_slice());
            str_eq(signature.as_str(), expected_signature)
        },
        None => false,
    }
}

/// The file extension for a content type.
pub open spec fn extension_for(mime: Seq<char>) -> Seq<char> {
    if mime == "image/jpeg"@ {
        "jpg"@
    } else if mime == "image/png"@ {
        "png"@
    } else if mime == "image/gif"@ {
        "gif"@
    } else if mime == "video/mp4"@ {
        "mp4"@
    } else if mime == "audio/mpeg"@ {
        "mp3"@
    } else if mime == "audio/aac"@ {
        "aac"@
    } else if mime == "audio/mp4"@ {
        "m4a"@
    } else if mime == "application/pdf"@ {
        "pdf"@
    } else {
        "bin"@
    }
}

/// The name a downloaded file is posted under: the default name when it has
/// an extension, else the default name with the extension of the content
/// type (its part before any `;`, trimmed).
pub open spec fn filename_spec(default_filename: Seq<char>, content_type: Seq<char>) -> Seq<char> {
    if contains_seq(default_filename, "."@) {
        default_filename
    } else {
        default_filename + "."@ + extension_for(trim(split_on(content_type, ';')[0]))
    }
}

fn extension_exec(mime: &str) -> (r: &'static str)
    ensures
        r@ == extension_for(mime@),
{
    if str_eq(mime, "image/jpeg") {
        "jpg"
    } else if str_eq(mime, "image/png") {
        "png"
    } else if str_eq(mime, "image/gif") {
        "gif"
    } else if str_eq(mime, "video/mp4") {
        "mp4"
    } else if str_eq(mime, "audio/mpeg") {
        "mp3"
    } else if str_eq(mime, "audio/aac") {
        "aac"
    } else if str_eq(mime, "audio/mp4") {
        "m4a"
    } else if str_eq(mime, "application/pdf") {
        "pdf"
    } else {
        "bin"
    }
}

pub fn infer_filename(default_filename: String, content_type: &str) -> (r: String)
    ensures
        r@ == filename_spec(default_filename@, content_type@),
{
    if str_contains(default_filename.as_str(), ".") {
        return default_filename;
    }
    let ct = chars_of(content_type);
    let parts = split_chars(ct.as_slice(), ';');
    proof {
        lemma_split_on_len(content_type@, ';');
    }
    let head = trim_chars(parts[0].as_slice());
    let mime = string_from_chars(head.as_slice());
    let mut out: Vec<char> = Vec::new();
    push_str(&mut out, default_filename.as_str());
    push_str(&mut out, ".");
    push_str(&mut out, extension_exec(mime.as_str()));
    string_from_chars(out.as_slice())
}

/// The picture shown for a sticker: none without an id; else the animated,
/// pop-up or plain image of the sticker.
pub open spec fn sticker_url_spec(sticker_id: Seq<char>, resource_type: Seq<char>) -> Seq<char> {
    if sticker_id.len() == 0 {
        seq![]
    } else {
        let asset = if resource_type == "ANIMATION"@ || resource_type == "ANIMATION_SOUND"@ {
            "sticker_animation.png"@
        } else if resource_type == "POPUP"@ || resource_type == "POPUP_SOUND"@ {
            "sticker_popup.png"@
        } else {
            "sticker.png"@
        };
        "https://stickershop.line-scdn.net/stickershop/v1/sticker/"@ + sticker_id + "/android/"@
            + asset
    }
}

pub fn build_sticker_preview_url(sticker_id: &str, sticker_resource_type: &str) -> (r: String)
    ensures
        r@ == sticker_url_spec(sticker_id@, sticker_resource_type@),
{
    if sticker_id.is_empty() {
        return String::new();
    }
    let asset = if str_eq(sticker_resource_type, "ANIMATION") || str_eq(
        sticker_resource_type,
        "ANIMATION_SOUND",
    ) {
        "sticker_animation.png"
    } else if str_eq(sticker_resource_type, "POPUP") || str_eq(sticker_resource_type, "POPUP_SOUND") {
        "sticker_popup.png"
    } else {
        "sticker.png"
    };
    let mut out: Vec<char> = Vec::new();
    push_str(&mut out, "https://stickershop.line-scdn.net/stickershop/v1/sticker/");
    push_str(&mut out, sticker_id);
    push_str(&mut out, "/android/");
    push_str(&mut out, asset);
    string_from_chars(out.as_slice())
}

fn join3(a: &str, b: &str, c: &str) -> (r: String)
    ensures
        r@ == a@ + b@ + c@,
{
    let mut out: Vec<char> = Vec::new();
    push_str(&mut out, a);
    push_str(&mut out, b);
    push_str(&mut out, c);
    string_from_chars(out.as_slice())
}

/// Where the content of a message is downloaded from.
pub fn line_content_url(message_id: &str) -> (r: String)
    ensures
        r@ == "https://api-data.line.me/v2/bot/message/"@ + message_id@ + "/content"@,
{
    join3("https://api-data.line.me/v2/bot/message/", message_id, "/content")
}

/// The profile of a group member.
pub fn group_member_profile_url(group_id: &str, user_id: &str) -> (r: String)
    ensures
        r@ == "https://api.line.me/v2/bot/group/"@ + group_id@ + "/member/"@ + user_id@,
{
    let a = join3("https://api.line.me/v2/bot/group/", group_id, "/member/");
    let mut out: Vec<char> = Vec::new();
    push_str(&mut out, a.as_str());
    push_str(&mut out, user_id);
    string_from_chars(out.as_slice())
}

/// The profile of a room member.
pub fn room_member_profile_url(room_id: &str, user_id: &str) -> (r: String)
    ensures
        r@ == "https://api.line.me/v2/bot/room/"@ + room_id@ + "/member/"@ + user_id@,
{
    let a = join3("https://api.line.me/v2/bot/room/", room_id, "/member/");
    let mut out: Vec<char> = Vec::new();
    push_str(&mut out, a.as_str());
    push_str(&mut out, user_id);
    string_from_chars(out.as_slice())
}

/// The profile of a user who befriended the bot.
pub fn user_profile_url(user_id: &str) -> (r: String)
    ensures
        r@ == "https://api.line.me/v2/bot/profile/"@ + user_id@,
{
    let mut out: Vec<char> = Vec::new();
    push_str(&mut out, "https://api.line.me/v2/bot/profile/");
    push_str(&mut out, user_id);
    string_from_chars(out.as_slice())
}

/// The summary (with the name) of a group.
pub fn group_summary_url(group_id: &str) -> (r: String)
    ensures
        r@ == "https://api.line.me/v2/bot/group/"@ + group_id@ + "/summary"@,
{
    join3("https://api.line.me/v2/bot/group/", group_id, "/summary")
}

/// The summary (with the name) of a room.
pub fn room_summary_url(room_id: &str) -> (r: String)
    ensures
        r@ == "https://api.line.me/v2/bot/room/"@ + room_id@ + "/summary"@,
{
    join3("https://api.line.me/v2/bot/room/", room_id, "/summary")
}

} // verus!
