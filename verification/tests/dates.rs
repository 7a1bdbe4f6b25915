use doner::dates::{day_number_from_ymd, is_valid_date, parse_iso_date, prev_civil_day};

#[test]
fn day_numbers_match_known_dates() {
    assert_eq!(day_number_from_ymd(1970, 1, 1), 0);
    assert_eq!(day_number_from_ymd(1969, 12, 31), -1);
    assert_eq!(day_number_from_ymd(2000, 3, 1), 11017);
    assert_eq!(day_number_from_ymd(2023, 12, 31), 19722);
    assert_eq!(day_number_from_ymd(2024, 1, 1), 19723);
    assert_eq!(day_number_from_ymd(2024, 1, 10), 19732);
    assert_eq!(day_number_from_ymd(2024, 2, 29), 19782);
}

#[test]
fn day_numbers_are_consecutive_across_boundaries() {
    assert_eq!(day_number_from_ymd(2024, 2, 29) + 1, day_number_from_ymd(2024, 3, 1));
    assert_eq!(day_number_from_ymd(2023, 12, 31) + 1, day_number_from_ymd(2024, 1, 1));
    assert_eq!(day_number_from_ymd(1900, 2, 28) + 1, day_number_from_ymd(1900, 3, 1));
}

#[test]
fn validity_follows_the_calendar() {
    assert!(is_valid_date(2024, 2, 29));
    assert!(!is_valid_date(2023, 2, 29));
    assert!(!is_valid_date(2024, 4, 31));
    assert!(!is_valid_date(2024, 13, 1));
    assert!(!is_valid_date(2024, 0, 1));
    assert!(!is_valid_date(2024, 1, 0));
    assert!(is_valid_date(1900, 2, 28));
    assert!(!is_valid_date(1900, 2, 29));
    assert!(is_valid_date(2000, 2, 29));
}

#[test]
fn iso_dates_parse_strictly() {
    assert_eq!(parse_iso_date("2024-01-10"), Some((2024, 1, 10)));
    assert_eq!(parse_iso_date("2024-02-29"), Some((2024, 2, 29)));
    assert_eq!(parse_iso_date("2023-02-29"), None);
    assert_eq!(parse_iso_date("2024-13-01"), None);
    assert_eq!(parse_iso_date("2024-1-10"), None);
    assert_eq!(parse_iso_date("2024/01/10"), None);
    assert_eq!(parse_iso_date("not-a-date"), None);
    assert_eq!(parse_iso_date(""), None);
    assert_eq!(parse_iso_date("2024-01-10x"), None);
}

#[test]
fn stepping_back_crosses_month_and_year_ends() {
    assert_eq!(prev_civil_day(2024, 1, 10), (2024, 1, 9));
    assert_eq!(prev_civil_day(2024, 3, 1), (2024, 2, 29));
    assert_eq!(prev_civil_day(2024, 1, 1), (2023, 12, 31));
    assert_eq!(prev_civil_day(2023, 3, 1), (2023, 2, 28));
}
