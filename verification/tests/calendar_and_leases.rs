use class_chat_bot::config::DiscordNotificationConfig;
use class_chat_bot::google_calendar::api::{
    enabled_calendars, event_window, events_endpoint, max_results_param, poll_interval,
};
use class_chat_bot::google_calendar::auth::{jwt_claims, reusable_token, token_expiry, GOOGLE_SCOPE};
use class_chat_bot::google_calendar::notify::{
    delivery_target_of, event_embed, event_identity, format_event_time_range, plan_calendar_event,
    selected_notifications, should_mark_seen, CalendarPlan,
};
use class_chat_bot::google_calendar::types::{
    CachedGoogleToken, GoogleCalendarConfig, GoogleCalendarEntryConfig, GoogleCalendarEvent,
    GoogleCalendarEventDate, NotifyTarget,
};
use class_chat_bot::leader_election::{
    election_enabled, holder_identity, lease_action, lease_seconds, renew_interval, setting_or,
    LeaseAction,
};

fn strings(v: &[&str]) -> Vec<String> {
    v.iter().map(|s| s.to_string()).collect()
}

fn when(dt: Option<&str>, d: Option<&str>) -> GoogleCalendarEventDate {
    GoogleCalendarEventDate { date_time: dt.map(str::to_string), date: d.map(str::to_string) }
}

fn calendar(targets: &[&str]) -> GoogleCalendarEntryConfig {
    GoogleCalendarEntryConfig {
        name: "課表".to_string(),
        calendar_id: "abc@group.calendar.google.com".to_string(),
        enabled: true,
        notify_targets: strings(targets),
    }
}

fn gcal(shared: &[&str]) -> GoogleCalendarConfig {
    GoogleCalendarConfig {
        enabled: true,
        service_account_json_path: "sa.json".to_string(),
        poll_interval_seconds: 10,
        lookahead_hours: 0,
        max_results: 0,
        notify_targets: strings(shared),
        calendars: vec![
            calendar(&[]),
            GoogleCalendarEntryConfig { enabled: false, ..calendar(&[]) },
            GoogleCalendarEntryConfig { calendar_id: "  ".to_string(), ..calendar(&[]) },
        ],
    }
}

fn target(enabled: bool, color: u32) -> NotifyTarget {
    let mut discord = DiscordNotificationConfig::default();
    discord.embed_color = color;
    NotifyTarget { enabled, discord }
}

fn targets() -> Vec<(String, NotifyTarget)> {
    vec![
        ("a".to_string(), target(true, 1)),
        ("b".to_string(), target(false, 2)),
        ("c".to_string(), target(true, 3)),
    ]
}

fn event() -> GoogleCalendarEvent {
    GoogleCalendarEvent {
        id: Some(" ev1 ".to_string()),
        summary: None,
        description: Some("  ".to_string()),
        location: Some("E101".to_string()),
        html_link: Some("https://cal/ev1".to_string()),
        start: when(Some("2024-05-01T10:00:00+08:00"), None),
        end: Some(when(None, Some("2024-05-02"))),
    }
}

#[test]
fn event_dates() {
    let timed = when(Some("2024-05-01T10:00:00+08:00"), None);
    assert_eq!(timed.key(), "2024-05-01T10:00:00+08:00");
    assert_eq!(timed.display_text().as_deref(), Some("2024-05-01 02:00 UTC"));
    let day = when(None, Some("2024-05-01"));
    assert_eq!(day.key(), "2024-05-01");
    assert_eq!(day.display_text().as_deref(), Some("2024-05-01"));
    let odd = when(Some("soon"), None);
    assert_eq!(odd.display_text().as_deref(), Some("soon"));
    assert_eq!(when(None, None).key(), "");
    let (s, e) = format_event_time_range(&timed, &None);
    assert_eq!(s, "2024-05-01 02:00 UTC");
    assert_eq!(e, "");
}

#[test]
fn notification_targets() {
    let t = targets();
    assert_eq!(selected_notifications(&calendar(&[]), &gcal(&[]), &t), vec![0, 2]);
    assert_eq!(selected_notifications(&calendar(&[]), &gcal(&["c", "b", "zz"]), &t), vec![2]);
    assert_eq!(selected_notifications(&calendar(&["a"]), &gcal(&["c"]), &t), vec![0]);
}

#[test]
fn announcement_embed() {
    let e = event();
    let (id, start) = event_identity(&e).unwrap();
    assert_eq!(id, "ev1");
    assert_eq!(start, "2024-05-01T10:00:00+08:00");
    let embed = event_embed(&e, &calendar(&[]), 9);
    assert_eq!(embed.title, "📅 (無標題活動)");
    assert_eq!(embed.description, "Google Calendar 活動通知");
    assert_eq!(embed.url, "https://cal/ev1");
    assert_eq!(embed.color, 9);
    assert_eq!(embed.footer, "abc@group.calendar.google.com");
    let fields: Vec<(String, String, bool)> =
        embed.fields.iter().map(|f| (f.name.clone(), f.value.clone(), f.inline)).collect();
    assert_eq!(
        fields,
        vec![
            ("日曆".to_string(), "課表".to_string(), true),
            ("開始".to_string(), "2024-05-01 02:00 UTC".to_string(), true),
            ("結束".to_string(), "2024-05-02".to_string(), true),
            ("地點".to_string(), "E101".to_string(), false),
        ]
    );
    let mut long = event();
    long.summary = Some("期中考".to_string());
    long.description = Some("字".repeat(410));
    let embed = event_embed(&long, &calendar(&[]), 9);
    assert_eq!(embed.title, "📅 期中考");
    assert_eq!(embed.description.chars().count(), 400);
}

#[test]
fn calendar_plans() {
    let t = targets();
    match plan_calendar_event(&event(), &calendar(&[]), &gcal(&[]), &t, false) {
        CalendarPlan::Announce { event_id, start_key, posts } => {
            assert_eq!(event_id, "ev1");
            assert_eq!(start_key, "2024-05-01T10:00:00+08:00");
            let picked: Vec<(usize, u32)> = posts.iter().map(|(i, e)| (*i, e.color)).collect();
            assert_eq!(picked, vec![(0, 1), (2, 3)]);
        }
        CalendarPlan::Skip => panic!("expected an announcement"),
    }
    assert!(matches!(
        plan_calendar_event(&event(), &calendar(&[]), &gcal(&[]), &t, true),
        CalendarPlan::Skip
    ));
    let mut no_id = event();
    no_id.id = Some("  ".to_string());
    assert!(matches!(
        plan_calendar_event(&no_id, &calendar(&[]), &gcal(&[]), &t, false),
        CalendarPlan::Skip
    ));
    assert!(matches!(
        plan_calendar_event(&event(), &calendar(&["zz"]), &gcal(&[]), &t, false),
        CalendarPlan::Skip
    ));
    assert!(should_mark_seen(&vec![false, true]));
    assert!(!should_mark_seen(&vec![false]));
    let d = delivery_target_of(&t[0].1);
    assert_eq!(d.channel_id, t[0].1.discord.channel_id);
}

#[test]
fn calendar_requests() {
    assert_eq!(
        events_endpoint(&calendar(&[])),
        "https://www.googleapis.com/calendar/v3/calendars/abc%40group%2Ecalendar%2Egoogle%2Ecom/events"
    );
    let g = gcal(&[]);
    assert_eq!(event_window(&g, 1000), (1000, 4600));
    assert_eq!(max_results_param(&g), 1);
    assert_eq!(poll_interval(&g), 30);
    assert_eq!(enabled_calendars(&g), vec![0]);
}

#[test]
fn access_tokens() {
    let cache = Some(CachedGoogleToken { access_token: "tok".to_string(), expires_at: 1031 });
    assert_eq!(reusable_token(&cache, 1000).as_deref(), Some("tok"));
    assert_eq!(reusable_token(&cache, 1001), None);
    assert_eq!(reusable_token(&None, 0), None);
    let c = jwt_claims("sa@x", "https://oauth2/token", 100);
    assert_eq!(c.iss, "sa@x");
    assert_eq!(c.scope, GOOGLE_SCOPE);
    assert_eq!(c.aud, "https://oauth2/token");
    assert_eq!((c.iat, c.exp), (100, 3640));
    assert_eq!(token_expiry(1000, 3600), 4570);
    assert_eq!(token_expiry(1000, 10), 1030);
}

#[test]
fn leader_election_settings() {
    assert!(election_enabled(Some("YES")));
    assert!(election_enabled(Some("1")));
    assert!(!election_enabled(Some("on")));
    assert!(!election_enabled(None));
    assert_eq!(lease_seconds(None), 15);
    assert_eq!(lease_seconds(Some("3")), 5);
    assert_eq!(lease_seconds(Some("+30")), 30);
    assert_eq!(lease_seconds(Some("x")), 15);
    assert_eq!(holder_identity(None, Some("host")), "host");
    assert_eq!(holder_identity(None, None), "class-chat-bot");
    assert_eq!(setting_or(None, "default"), "default");
    assert_eq!(renew_interval(15), 5);
    assert_eq!(renew_interval(2), 1);
}

#[test]
fn lease_decisions() {
    assert!(matches!(lease_action(false, "", None, None, "me", 15), LeaseAction::Create));
    assert!(matches!(
        lease_action(true, "me", Some(20), Some(1), "me", 15),
        LeaseAction::Renew { duration_seconds: 20 }
    ));
    assert!(matches!(lease_action(true, "other", None, Some(3), "me", 15), LeaseAction::Wait));
    assert!(matches!(
        lease_action(true, "other", Some(0), Some(3), "me", 15),
        LeaseAction::Renew { duration_seconds: 1 }
    ));
    assert!(matches!(
        lease_action(true, "other", None, None, "me", 15),
        LeaseAction::Renew { duration_seconds: 15 }
    ));
}
