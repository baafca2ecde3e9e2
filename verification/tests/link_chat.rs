use base64::Engine;
use class_chat_bot::config::{GroupRouteConfig, LinkChatConfig};
use class_chat_bot::link_chat::line_api::{
    build_sticker_preview_url, group_member_profile_url, group_summary_url, infer_filename,
    line_content_url, room_member_profile_url, room_summary_url, user_profile_url,
    verify_line_signature,
};
use class_chat_bot::link_chat::routing::{render_message_text, render_webhook_name, resolve_target};
use class_chat_bot::link_chat::cache::TtlCache;
use class_chat_bot::link_chat::types::{
    cache_ttl, DeliveryTarget, LineEvent, LineMessage, LineSource, MemberProfile,
};
use class_chat_bot::link_chat::webhook::{
    default_group_name, delivery_error_status, given_request_id, make_template_context,
    missing_content_text, plan_event, profile_cache_key, profile_fetch_plan, request_id_text,
    resolve_group_name, sender_identity, signature_check, webhook_precheck, EventPlan, ProfileFetch,
};
use hmac::{Hmac, Mac};
use sha2::Sha256;

fn route(url: &str, channel: u64) -> GroupRouteConfig {
    let mut r = GroupRouteConfig::default();
    r.discord_webhook_url = url.to_string();
    r.discord_channel_id = channel;
    r
}

fn link_chat() -> LinkChatConfig {
    let mut cfg = LinkChatConfig::default();
    cfg.enabled = true;
    cfg.line_channel_secret = "secret".to_string();
    cfg.line_channel_access_token = "token".to_string();
    cfg.group_mapping = vec![
        ("g1".to_string(), route("  https://hook/one  ", 0)),
        ("*".to_string(), route("", 77)),
        ("dead".to_string(), route("   ", 0)),
    ];
    cfg
}

fn target(webhook: &str, name_tpl: &str, msg_tpl: &str, hook_msg_tpl: &str) -> DeliveryTarget {
    DeliveryTarget {
        discord_channel_id: 1,
        discord_webhook_url: webhook.to_string(),
        discord_webhook_avatar_url: String::new(),
        message_template: msg_tpl.to_string(),
        webhook_name_template: name_tpl.to_string(),
        webhook_message_template: hook_msg_tpl.to_string(),
    }
}

#[test]
fn sources() {
    let g = LineSource::Group { group_id: "G".to_string(), user_id: String::new() };
    assert_eq!(g.source_id(), "G");
    assert_eq!(g.sender_user_id(), None);
    assert_eq!(g.group_id(), Some("G"));
    assert_eq!(g.room_id(), None);
    let u = LineSource::User { user_id: "U".to_string() };
    assert_eq!(u.sender_user_id(), Some("U"));
    let r = LineSource::Room { room_id: "R".to_string(), user_id: "U2".to_string() };
    assert_eq!(r.room_id(), Some("R"));
    assert_eq!(r.sender_user_id(), Some("U2"));
}

#[test]
fn signatures() {
    let body = br#"{"events":[]}"#;
    let mut mac = Hmac::<Sha256>::new_from_slice(b"secret").unwrap();
    mac.update(body);
    let good = base64::engine::general_purpose::STANDARD.encode(mac.finalize().into_bytes());
    assert!(verify_line_signature("secret", body, &good));
    assert!(!verify_line_signature("other", body, &good));
    assert!(!verify_line_signature("secret", body, "AAAA"));
    assert_eq!(signature_check("secret", body, Some(&good)), None);
    assert_eq!(signature_check("secret", body, None), Some(401));
    assert_eq!(signature_check("secret", body, Some("bad")), Some(401));
}

#[test]
fn filenames() {
    assert_eq!(infer_filename("a.jpg".to_string(), "image/png"), "a.jpg");
    assert_eq!(infer_filename("line_x".to_string(), " image/png ; charset=x"), "line_x.png");
    assert_eq!(infer_filename("f".to_string(), "audio/mp4"), "f.m4a");
    assert_eq!(infer_filename("f".to_string(), "text/plain"), "f.bin");
}

#[test]
fn stickers_and_endpoints() {
    assert_eq!(
        build_sticker_preview_url("123", "ANIMATION"),
        "https://stickershop.line-scdn.net/stickershop/v1/sticker/123/android/sticker_animation.png"
    );
    assert_eq!(
        build_sticker_preview_url("9", "POPUP_SOUND"),
        "https://stickershop.line-scdn.net/stickershop/v1/sticker/9/android/sticker_popup.png"
    );
    assert_eq!(
        build_sticker_preview_url("9", "STATIC"),
        "https://stickershop.line-scdn.net/stickershop/v1/sticker/9/android/sticker.png"
    );
    assert_eq!(build_sticker_preview_url("", "ANIMATION"), "");
    assert_eq!(line_content_url("m1"), "https://api-data.line.me/v2/bot/message/m1/content");
    assert_eq!(group_member_profile_url("g", "u"), "https://api.line.me/v2/bot/group/g/member/u");
    assert_eq!(room_member_profile_url("r", "u"), "https://api.line.me/v2/bot/room/r/member/u");
    assert_eq!(user_profile_url("u"), "https://api.line.me/v2/bot/profile/u");
    assert_eq!(group_summary_url("g"), "https://api.line.me/v2/bot/group/g/summary");
    assert_eq!(room_summary_url("r"), "https://api.line.me/v2/bot/room/r/summary");
}

#[test]
fn targets_by_group() {
    let cfg = link_chat();
    let t = resolve_target(&cfg, "g1").unwrap();
    assert_eq!(t.discord_webhook_url, "https://hook/one");
    assert_eq!(t.message_template, "");
    let fallback = resolve_target(&cfg, "other").unwrap();
    assert_eq!(fallback.discord_channel_id, 77);
    assert!(resolve_target(&cfg, "").is_none());
    assert!(resolve_target(&cfg, "dead").is_none());
    let mut no_star = link_chat();
    no_star.group_mapping.remove(1);
    assert!(resolve_target(&no_star, "other").is_none());
}

#[test]
fn message_and_name_rendering() {
    let ctx = make_template_context("Alice", "", "U1", "Class", "G1", "hi", "2024-01-01T00:00:00Z");
    let plain = target("", "", "", "");
    assert_eq!(render_message_text(&plain, &ctx), "Alice (): hi");
    assert_eq!(render_webhook_name(&plain, &ctx), None);
    let hooked = target("https://hook", "  ", "[{group_name}] {message}", "{name}: {message}");
    assert_eq!(render_message_text(&hooked, &ctx), "Alice: hi");
    assert_eq!(render_webhook_name(&hooked, &ctx).as_deref(), Some("Alice"));
    let named = target("https://hook", "{name} ({group_name})", "[{group_name}] {message}", " ");
    assert_eq!(render_message_text(&named, &ctx), "[Class] hi");
    assert_eq!(render_webhook_name(&named, &ctx).as_deref(), Some("Alice (Class)"));
}

#[test]
fn request_checks() {
    let mut cfg = link_chat();
    assert_eq!(webhook_precheck(&cfg), None);
    cfg.line_channel_access_token.clear();
    assert_eq!(webhook_precheck(&cfg), Some(503));
    cfg.enabled = false;
    assert_eq!(webhook_precheck(&cfg), Some(204));
    assert_eq!(request_id_text(7), "linkchat-7");
    assert_eq!(given_request_id(Some("abc")).as_deref(), Some("abc"));
    assert_eq!(given_request_id(Some("")), None);
}

#[test]
fn senders_and_chats() {
    let g = LineSource::Group { group_id: "G".to_string(), user_id: "U".to_string() };
    let u = LineSource::User { user_id: "U".to_string() };
    assert_eq!(default_group_name(&g), "Unknown Group");
    assert_eq!(resolve_group_name(&u, Some("x"), Some("y")), "DM");
    assert_eq!(resolve_group_name(&g, Some("Cached"), Some("Fetched")), "Cached");
    assert_eq!(resolve_group_name(&g, None, Some("Fetched")), "Fetched");
    assert_eq!(resolve_group_name(&g, None, Some("")), "Unknown Group");
    assert_eq!(profile_cache_key(&g, "U"), "group:G:U");
    assert_eq!(profile_cache_key(&u, "U"), "user:U");
    assert!(matches!(profile_fetch_plan(&g, "U"), ProfileFetch::GroupMember { .. }));
    let p = MemberProfile { display_name: String::new(), picture_url: "pic".to_string() };
    let (name, avatar) = sender_identity(true, Some(&p));
    assert_eq!(name, "Unknown Sender");
    assert_eq!(avatar.as_deref(), Some("pic"));
    let (name, avatar) = sender_identity(true, None);
    assert_eq!(name, "Unknown User");
    assert!(avatar.is_none());
    assert_eq!(sender_identity(false, Some(&p)).0, "Unknown User");
}

fn event(kind: &str, message: Option<LineMessage>) -> LineEvent {
    LineEvent {
        event_type: kind.to_string(),
        timestamp: 1_700_000_000_000,
        source: LineSource::Group { group_id: "g1".to_string(), user_id: "U".to_string() },
        message,
    }
}

#[test]
fn text_event_plan() {
    let mut cfg = link_chat();
    cfg.group_mapping[0].1.webhook_message_template = "{message} @ {timestamp}".to_string();
    let e = event("message", Some(LineMessage::Text { text: "hello".to_string() }));
    match plan_event(&e, &cfg, "Alice", None, "Class", 0) {
        EventPlan::SendText { target, content, webhook_name } => {
            assert_eq!(target.discord_webhook_url, "https://hook/one");
            assert_eq!(content, "hello @ 2023-11-14T22:13:20Z");
            assert_eq!(webhook_name.as_deref(), Some("Alice"));
        }
        _ => panic!("expected a text post"),
    }
}

#[test]
fn media_and_other_event_plans() {
    let cfg = link_chat();
    let img = event("message", Some(LineMessage::Image { message_id: "m1".to_string() }));
    match plan_event(&img, &cfg, "Alice", None, "Class", 0) {
        EventPlan::SendContent { message_id, caption, filename, .. } => {
            assert_eq!(message_id, "m1");
            assert_eq!(caption, "");
            assert_eq!(filename, "line_image_m1.jpg");
        }
        _ => panic!("expected a file post"),
    }
    let file = event(
        "message",
        Some(LineMessage::File { message_id: "m2".to_string(), file_name: String::new() }),
    );
    match plan_event(&file, &cfg, "Alice", None, "Class", 0) {
        EventPlan::SendContent { filename, .. } => assert_eq!(filename, "line_file_m2.bin"),
        _ => panic!("expected a file post"),
    }
    let loc = event(
        "message",
        Some(LineMessage::Location {
            title: "T".to_string(),
            address: "A".to_string(),
            latitude: "25.5".to_string(),
            longitude: "121".to_string(),
        }),
    );
    match plan_event(&loc, &cfg, "Alice", None, "Class", 0) {
        EventPlan::SendText { content, .. } => assert_eq!(content, "[位置] T A (25.5, 121)"),
        _ => panic!("expected a text post"),
    }
    let unknown = event("message", Some(LineMessage::Unknown));
    match plan_event(&unknown, &cfg, "Alice", None, "Class", 0) {
        EventPlan::SendText { content, .. } => assert_eq!(content, "[未知訊息型別]"),
        _ => panic!("expected a text post"),
    }
    assert!(matches!(plan_event(&event("follow", None), &cfg, "A", None, "C", 0), EventPlan::Skip));
    assert!(matches!(plan_event(&event("message", None), &cfg, "A", None, "C", 0), EventPlan::Skip));
}

#[test]
fn posting_helpers() {
    assert_eq!(missing_content_text(""), "（缺少 message id，無法下載內容）");
    assert_eq!(delivery_error_status(class_chat_bot::discord::utils::MISSING_TARGET_ERROR), 503);
    assert_eq!(delivery_error_status("boom"), 502);
    assert_eq!(cache_ttl(0), 1);
    assert_eq!(cache_ttl(300), 300);
}

#[test]
fn cached_values_last_until_their_expiry() {
    let mut cache: TtlCache<String> = TtlCache::new();
    assert_eq!(cache.get("g1", 0), None);
    cache.set("g1".to_string(), "Class A".to_string(), 1_000, 300);
    assert_eq!(cache.get("g1", 1_000), Some(&"Class A".to_string()));
    assert_eq!(cache.get("g1", 300_999), Some(&"Class A".to_string()));
    assert_eq!(cache.get("g1", 301_000), None);
    assert_eq!(cache.get("g2", 1_000), None);
}

#[test]
fn storing_a_key_again_replaces_its_entry() {
    let mut cache: TtlCache<String> = TtlCache::new();
    cache.set("g1".to_string(), "Old".to_string(), 0, 1);
    cache.set("g2".to_string(), "Other".to_string(), 0, 10);
    cache.set("g1".to_string(), "New".to_string(), 5_000, 1);
    assert_eq!(cache.get("g1", 5_500), Some(&"New".to_string()));
    assert_eq!(cache.get("g2", 5_500), Some(&"Other".to_string()));
    assert_eq!(cache.get("g1", 6_000), None);
}
