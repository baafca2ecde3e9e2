use class_chat_bot::timezone::{
    default_timezone, fixed_offset_overflows, parse_fixed_offset, parse_timezone,
    timezone_from_setting, AppTimeZone,
};

#[test]
fn test_parse_timezone_name() {
    let parsed = parse_timezone("Asia/Taipei").expect("timezone should parse");
    match parsed {
        AppTimeZone::Named(tz) => assert_eq!(tz.name(), "Asia/Taipei"),
        _ => panic!("expected named timezone"),
    }
}

#[test]
fn test_parse_timezone_offset() {
    let parsed = parse_timezone("UTC+8").expect("timezone should parse");
    match parsed {
        AppTimeZone::Fixed(offset) => {
            assert_eq!(offset, 8 * 3600)
        }
        _ => panic!("expected fixed offset"),
    }
}

#[test]
fn fixed_offset_forms() {
    assert_eq!(parse_fixed_offset("GMT-03:30"), Some(-(3 * 3600 + 30 * 60)));
    assert_eq!(parse_fixed_offset("+0530"), Some(5 * 3600 + 30 * 60));
    assert_eq!(parse_fixed_offset("9"), Some(9 * 3600));
    assert_eq!(parse_fixed_offset("utc-2"), Some(-2 * 3600));
    assert_eq!(parse_fixed_offset("24"), None);
    assert_eq!(parse_fixed_offset("UTC"), None);
    assert_eq!(parse_fixed_offset("abc"), None);
    assert!(fixed_offset_overflows("UTC+9999999"));
    assert!(!fixed_offset_overflows("UTC+8"));
}

#[test]
fn timezone_setting_defaults() {
    for raw in [None, Some(""), Some("   "), Some("Not/AZone")] {
        match timezone_from_setting(raw) {
            AppTimeZone::Named(z) => assert_eq!(z.name(), "Asia/Taipei"),
            _ => panic!("expected the default zone"),
        }
    }
    match timezone_from_setting(Some(" Europe/Paris ")) {
        AppTimeZone::Named(z) => assert_eq!(z.name(), "Europe/Paris"),
        _ => panic!("expected a named zone"),
    }
    match default_timezone() {
        AppTimeZone::Named(z) => assert_eq!(z.name(), "Asia/Taipei"),
        _ => panic!("expected a named zone"),
    }
}

#[test]
fn timezone_conversions() {
    let tz = default_timezone();
    // 2023-03-05 14:30 local in Taipei is 06:30 UTC.
    let naive = chrono::NaiveDate::from_ymd_opt(2023, 3, 5)
        .unwrap()
        .and_hms_opt(14, 30, 0)
        .unwrap()
        .and_utc()
        .timestamp();
    assert_eq!(tz.naive_local_to_utc(naive), Some(naive - 8 * 3600));
    assert_eq!(tz.utc_to_fixed_local(naive), Some(8 * 3600));
    let fixed = AppTimeZone::Fixed(-3600);
    assert_eq!(fixed.naive_local_to_utc(naive), Some(naive + 3600));
}

#[test]
fn local_date_follows_the_zone() {
    let tz = default_timezone();
    // 2023-12-31 23:00 UTC is already 2024-01-01 in Taipei.
    let instant = 1704067200 - 3600;
    assert_eq!(tz.date_text(instant), Some("2024-01-01".to_string()));
    assert_eq!(AppTimeZone::Fixed(0).date_text(instant), Some("2023-12-31".to_string()));
}
