use chrono::{Duration, Utc};
use doner::time_filter::{parse_time_filter, parse_time_spec, TimeFilterError, TimeSpec};

#[test]
fn test_parse_days() {
    let result = parse_time_filter("7d").unwrap();
    let expected = (Utc::now() - Duration::days(7)).timestamp();
    // Allow 1 second tolerance
    assert!((result - expected).abs() <= 1);
}

#[test]
fn test_parse_hours() {
    let result = parse_time_filter("24h").unwrap();
    let expected = (Utc::now() - Duration::hours(24)).timestamp();
    assert!((result - expected).abs() <= 1);
}

#[test]
fn test_parse_minutes() {
    let result = parse_time_filter("30m").unwrap();
    let expected = (Utc::now() - Duration::minutes(30)).timestamp();
    assert!((result - expected).abs() <= 1);
}

#[test]
fn test_invalid_filter() {
    assert!(parse_time_filter("invalid").is_err());
}

#[test]
fn invalid_filter_is_unrecognized() {
    assert_eq!(parse_time_filter("invalid-token"), Err(TimeFilterError::Unrecognized));
    assert_eq!(parse_time_filter(""), Err(TimeFilterError::Unrecognized));
    assert_eq!(parse_time_filter("d"), Err(TimeFilterError::Unrecognized));
    assert_eq!(parse_time_filter("7x"), Err(TimeFilterError::Unrecognized));
    assert_eq!(parse_time_filter("7 d d"), Err(TimeFilterError::Unrecognized));
}

#[test]
fn keywords_parse_to_specs() {
    assert_eq!(parse_time_spec("today"), Ok(TimeSpec::Today));
    assert_eq!(parse_time_spec("yesterday"), Ok(TimeSpec::Yesterday));
    assert_eq!(parse_time_spec("this-week"), Ok(TimeSpec::ThisWeek));
    assert_eq!(parse_time_spec("this-month"), Ok(TimeSpec::ThisMonth));
}

#[test]
fn keywords_ignore_case_and_whitespace() {
    assert_eq!(parse_time_spec("  Today "), Ok(TimeSpec::Today));
    assert_eq!(parse_time_spec("YESTERDAY"), Ok(TimeSpec::Yesterday));
    assert_eq!(parse_time_spec(" This-Week"), Ok(TimeSpec::ThisWeek));
}

#[test]
fn durations_parse_to_seconds() {
    assert_eq!(parse_time_spec("7d"), Ok(TimeSpec::Ago { seconds: 7 * 86400 }));
    assert_eq!(parse_time_spec("24h"), Ok(TimeSpec::Ago { seconds: 24 * 3600 }));
    assert_eq!(parse_time_spec("30m"), Ok(TimeSpec::Ago { seconds: 30 * 60 }));
    assert_eq!(parse_time_spec("2w"), Ok(TimeSpec::Ago { seconds: 2 * 604800 }));
    assert_eq!(parse_time_spec("3 days"), Err(TimeFilterError::Unrecognized));
    assert_eq!(parse_time_spec("5days"), Ok(TimeSpec::Ago { seconds: 5 * 86400 }));
    assert_eq!(parse_time_spec("10 MIN"), Err(TimeFilterError::Unrecognized));
    assert_eq!(parse_time_spec("10MIN"), Ok(TimeSpec::Ago { seconds: 600 }));
}

#[test]
fn keyword_filters_give_past_instants() {
    let now = Utc::now().timestamp();
    // Local midnight of today lies within the last 26 hours, allowing for
    // any time zone; the same bound holds a day wider for yesterday.
    let today = parse_time_filter("today").unwrap();
    assert!(today <= now + 1);
    assert!(now - today < 26 * 3600);
    let yesterday = parse_time_filter("yesterday").unwrap();
    assert_eq!(today - yesterday, 86400);
    let week = parse_time_filter("this-week").unwrap();
    assert!(week <= today);
    assert_eq!((today - week) % 86400, 0);
    assert!((today - week) / 86400 <= 6);
    let month = parse_time_filter("this-month").unwrap();
    assert!(month <= today);
    assert!((today - month) / 86400 <= 30);
}
