use doner::dates::day_number_from_ymd;
use doner::iteration::matches_iteration_filter;

#[test]
fn all_filter_matches_everything() {
    let today = day_number_from_ymd(2024, 1, 10);
    assert!(matches_iteration_filter(None, None, "@all", today));
    assert!(matches_iteration_filter(Some("Sprint 5"), Some("2024-01-01"), "@all", today));
    assert!(matches_iteration_filter(Some("Sprint 5"), None, "@all", today));
}

#[test]
fn at_filters_never_match_without_iteration() {
    let today = day_number_from_ymd(2024, 1, 10);
    assert!(!matches_iteration_filter(None, None, "@current", today));
    assert!(!matches_iteration_filter(None, None, "@previous", today));
    assert!(!matches_iteration_filter(None, None, "@current,@previous", today));
    assert!(!matches_iteration_filter(None, Some("2024-01-01"), "@current", today));
}

#[test]
fn current_window_is_fourteen_days_from_start() {
    let start = Some("2024-01-01");
    let title = Some("Sprint 5");
    let day = |d: i64| day_number_from_ymd(2024, 1, 1) + d;
    // start <= today < start + 14
    assert!(matches_iteration_filter(title, start, "@current", day(0)));
    assert!(matches_iteration_filter(title, start, "@current", day(13)));
    assert!(!matches_iteration_filter(title, start, "@current", day(14)));
    assert!(!matches_iteration_filter(title, start, "@current", day(-1)));
}

#[test]
fn previous_window_is_two_to_four_weeks_back() {
    let title = Some("Sprint 4");
    let today = day_number_from_ymd(2024, 1, 29);
    // previous: started within [today - 28, today - 14)
    assert!(matches_iteration_filter(title, Some("2024-01-01"), "@previous", today));
    assert!(matches_iteration_filter(title, Some("2024-01-14"), "@previous", today));
    assert!(!matches_iteration_filter(title, Some("2024-01-15"), "@previous", today));
    assert!(!matches_iteration_filter(title, Some("2023-12-31"), "@previous", today));
}

#[test]
fn other_tokens_match_titles_exactly() {
    let today = day_number_from_ymd(2024, 1, 10);
    assert!(matches_iteration_filter(Some("Sprint 5"), None, "Sprint 5", today));
    assert!(!matches_iteration_filter(Some("Sprint 5"), None, "Sprint 4", today));
    assert!(!matches_iteration_filter(Some("Sprint 5"), None, "sprint 5", today));
    assert!(!matches_iteration_filter(None, None, "Sprint 5", today));
}

#[test]
fn comma_lists_match_any_token() {
    let today = day_number_from_ymd(2024, 1, 10);
    assert!(matches_iteration_filter(
        Some("Sprint 5"),
        Some("2024-01-01"),
        "@current,@previous",
        today
    ));
    assert!(matches_iteration_filter(Some("Sprint 5"), None, "Sprint 4, Sprint 5", today));
    assert!(matches_iteration_filter(Some("Sprint 5"), None, " Sprint 5 ", today));
    assert!(!matches_iteration_filter(Some("Sprint 5"), None, "Sprint 3,Sprint 4", today));
}

#[test]
fn malformed_start_dates_never_match_date_tokens() {
    let today = day_number_from_ymd(2024, 1, 10);
    assert!(!matches_iteration_filter(Some("Sprint 5"), Some("2024-1-1"), "@current", today));
    assert!(!matches_iteration_filter(Some("Sprint 5"), Some("soon"), "@current", today));
    assert!(!matches_iteration_filter(Some("Sprint 5"), Some("2024-02-30"), "@previous", today));
    // The exact-title alternative still applies.
    assert!(matches_iteration_filter(Some("Sprint 5"), Some("soon"), "@current,Sprint 5", today));
}
