use org_reminder::date::DateTime;
use org_reminder::parse::{extract_timestamp, parse_token, ParseFailure};
use org_reminder::todo::Todo;

fn dt(year: u16, month: u8, day: u8, hour: u8, minute: u8) -> DateTime {
    DateTime { year, month, day, hour, minute }
}

#[test]
fn date_only_token_is_midnight() {
    assert_eq!(parse_token("2023-08-08"), Some(dt(2023, 8, 8, 0, 0)));
}

#[test]
fn date_weekday_time_token_discards_the_time() {
    assert_eq!(parse_token("2023-08-08 Tue 10:06"), Some(dt(2023, 8, 8, 0, 0)));
}

#[test]
fn date_weekday_token_is_midnight() {
    assert_eq!(parse_token("2023-08-08 Tue"), Some(dt(2023, 8, 8, 0, 0)));
}

#[test]
fn date_time_token_keeps_the_time() {
    assert_eq!(parse_token("2023-08-08 10:06"), Some(dt(2023, 8, 8, 10, 6)));
}

#[test]
fn weekday_letter_case_is_free() {
    assert_eq!(parse_token("2023-08-08 tue 10:06"), Some(dt(2023, 8, 8, 0, 0)));
    assert_eq!(parse_token("2023-08-08 SUN"), Some(dt(2023, 8, 8, 0, 0)));
    assert_eq!(parse_token("2023-08-08 Xyz 10:06"), None);
}

#[test]
fn weekday_is_not_checked_against_the_date() {
    assert_eq!(parse_token("2023-08-08 Sun 10:10"), Some(dt(2023, 8, 8, 0, 0)));
}

#[test]
fn calendar_validity_is_enforced() {
    assert_eq!(parse_token("2023-02-29"), None);
    assert_eq!(parse_token("2024-02-29"), Some(dt(2024, 2, 29, 0, 0)));
    assert_eq!(parse_token("2100-02-29"), None);
    assert_eq!(parse_token("2000-02-29"), Some(dt(2000, 2, 29, 0, 0)));
    assert_eq!(parse_token("2023-13-01"), None);
    assert_eq!(parse_token("2023-00-01"), None);
    assert_eq!(parse_token("2023-04-31"), None);
    assert_eq!(parse_token("2023-04-30"), Some(dt(2023, 4, 30, 0, 0)));
}

#[test]
fn time_of_day_validity_is_enforced() {
    assert_eq!(parse_token("2023-08-08 24:00"), None);
    assert_eq!(parse_token("2023-08-08 23:59"), Some(dt(2023, 8, 8, 23, 59)));
    assert_eq!(parse_token("2023-08-08 10:60"), None);
}

#[test]
fn malformed_tokens_are_rejected() {
    assert_eq!(parse_token(""), None);
    assert_eq!(parse_token("Mon 10:10"), None);
    assert_eq!(parse_token("10:10"), None);
    assert_eq!(parse_token("2023/08/08"), None);
    assert_eq!(parse_token(" 2023-08-08"), None);
    assert_eq!(parse_token("2023-08-08 "), None);
    assert_eq!(parse_token("blabla"), None);
}

#[test]
fn a_line_without_a_token_fails_structurally() {
    assert_eq!(extract_timestamp("*TODO no angle brackets"), Err(ParseFailure::StructuralFailure));
    assert_eq!(extract_timestamp("*TODO opened <2023-08-08"), Err(ParseFailure::StructuralFailure));
    assert_eq!(extract_timestamp(""), Err(ParseFailure::StructuralFailure));
}

#[test]
fn a_bad_token_fails_on_format() {
    assert_eq!(extract_timestamp("*TODO x <Mon 10:10>"), Err(ParseFailure::FormatFailure));
    assert!(Todo::build("*TODO x SCHEDULED: <Mon 10:10>").is_none());
    assert_eq!(extract_timestamp("x <blabla>"), Err(ParseFailure::FormatFailure));
}

#[test]
fn the_first_token_on_the_line_decides() {
    assert_eq!(extract_timestamp("a <2023-08-08> b <2024-01-01>"), Ok(dt(2023, 8, 8, 0, 0)));
    assert_eq!(extract_timestamp("a <bad> b <2024-01-01>"), Err(ParseFailure::FormatFailure));
}
