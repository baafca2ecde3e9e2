use chrono::{DateTime, TimeZone, Utc};
use class_chat_bot::crawler::parser::parse_time_string;
use class_chat_bot::crawler::schedule::{compute_next_run, parse_every_seconds, try_compute_next_run};
use class_chat_bot::timezone::default_timezone;

fn rfc3339(secs: i64) -> String {
    DateTime::from_timestamp(secs, 0).unwrap().to_rfc3339()
}

#[test]
fn test_parse_time_string() {
    let tz = default_timezone();
    let cases = vec![
        ("寫於2023-03-05 14:30:00", "2023-03-05T06:30:00+00:00"),
        ("2023/03/05 14:30", "2023-03-05T06:30:00+00:00"),
        ("2023-03-05", "2023-03-04T16:00:00+00:00"),
        ("三月 5, 2023", "2023-03-04T16:00:00+00:00"),
        ("March 5, 2023", "2023-03-04T16:00:00+00:00"),
        ("5 3 2023 14:30", "2023-03-05T06:30:00+00:00"),
        (" 週四, 28 十一月 2024 13:53", "2024-11-28T05:53:00+00:00"),
    ];

    for (input, expected) in cases {
        let parsed = parse_time_string(input, &tz).expect("should parse");
        assert_eq!(rfc3339(parsed), expected);
    }
}

#[test]
fn parse_time_string_rejects_unknown_text() {
    let tz = default_timezone();
    assert_eq!(parse_time_string("yesterday", &tz), Err("yesterday".to_string()));
}

fn now() -> i64 {
    Utc.with_ymd_and_hms(2026, 2, 27, 12, 0, 0).unwrap().timestamp()
}

#[test]
fn test_compute_next_run_with_seconds_literal() {
    let now = now();
    let next = compute_next_run("30", now, &default_timezone());
    assert_eq!(next, now + 30);
}

#[test]
fn test_compute_next_run_with_every_syntax() {
    let now = now();
    let next = compute_next_run("@every 2m", now, &default_timezone());
    assert_eq!(next, now + 120);
}

#[test]
fn test_compute_next_run_with_invalid_expression() {
    let now = now();
    let next = compute_next_run("not-a-cron", now, &default_timezone());
    assert_eq!(next, now + 60);
}

#[test]
fn test_compute_next_run_with_cron_expression() {
    let now = now();
    let next = compute_next_run("0 */5 * * * * *", now, &default_timezone());
    assert_eq!(next, now + 300);
}

#[test]
fn next_run_has_a_floor_of_five_seconds() {
    let now = now();
    assert_eq!(compute_next_run("1", now, &default_timezone()), now + 5);
    assert_eq!(compute_next_run("@every 0s", now, &default_timezone()), now + 5);
    assert_eq!(compute_next_run("@every 1h", now, &default_timezone()), now + 3600);
}

#[test]
fn every_syntax_forms() {
    assert_eq!(parse_every_seconds("@every 45s"), Some(45));
    assert_eq!(parse_every_seconds("@every 3m"), Some(180));
    assert_eq!(parse_every_seconds("@every 2h"), Some(7200));
    assert_eq!(parse_every_seconds("@every 2d"), None);
    assert_eq!(parse_every_seconds("every 2m"), None);
    assert_eq!(parse_every_seconds("@every xm"), None);
}

#[test]
fn next_run_out_of_range_is_refused() {
    assert_eq!(try_compute_next_run("99999999999999999", now(), &default_timezone()), None);
}

const LAST_SECOND: i64 = 8210266876799;
const FIRST_SECOND: i64 = -8334601228800;

#[test]
fn chrono_holds_exactly_its_range_of_seconds() {
    assert!(DateTime::from_timestamp(LAST_SECOND, 0).is_some());
    assert!(DateTime::from_timestamp(LAST_SECOND + 1, 0).is_none());
    assert!(DateTime::from_timestamp(FIRST_SECOND, 0).is_some());
    assert!(DateTime::from_timestamp(FIRST_SECOND - 1, 0).is_none());
}

#[test]
fn intervals_end_at_the_last_representable_second() {
    let tz = default_timezone();
    assert_eq!(try_compute_next_run("5", LAST_SECOND - 5, &tz), Some(LAST_SECOND));
    assert_eq!(try_compute_next_run("5", LAST_SECOND - 4, &tz), None);
    assert_eq!(try_compute_next_run("@every 1s", FIRST_SECOND, &tz), Some(FIRST_SECOND + 5));
}

#[test]
fn cron_at_the_last_second_gives_no_time_instead_of_failing() {
    let tz = default_timezone();
    assert_eq!(try_compute_next_run("0 */5 * * * * *", LAST_SECOND, &tz), None);
    assert_eq!(try_compute_next_run("not-a-cron", LAST_SECOND, &tz), None);
}

#[test]
fn the_next_run_lies_after_now() {
    let tz = default_timezone();
    let now = Utc.with_ymd_and_hms(2026, 1, 27, 12, 0, 30).unwrap().timestamp();
    for expr in ["0", "30", "@every 1s", "@every 2m", "0 */5 * * * * *", "not-a-cron"] {
        let next = compute_next_run(expr, now, &tz);
        assert!(next > now, "{expr}");
    }
    assert_eq!(compute_next_run("0", now, &tz), now + 5);
    assert_eq!(compute_next_run("@every 1s", now, &tz), now + 5);
}
