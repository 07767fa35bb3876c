use fuzzydate::calendar::DateTime;
use fuzzydate::error::{ErrorKind, ParseError};
use fuzzydate::format::format_bytes;
use fuzzydate::{parse, parse_with_default_time};

fn dt(year: i32, month: u8, day: u8, hour: u8, minute: u8, second: u8) -> DateTime {
    DateTime::new(year, month, day, hour, minute, second).unwrap()
}

fn kind(r: Result<DateTime, ParseError>) -> ErrorKind {
    r.unwrap_err().kind
}

#[test]
fn today_is_midnight_of_now() {
    let now = dt(2024, 5, 17, 15, 42, 7);
    assert_eq!(parse("today", now), Ok(dt(2024, 5, 17, 0, 0, 0)));
}

#[test]
fn today_with_default_hour() {
    let now = dt(2024, 5, 17, 15, 42, 7);
    assert_eq!(parse_with_default_time("today", now, 9), Ok(dt(2024, 5, 17, 9, 0, 0)));
}

#[test]
fn tomorrow_after_leap_day() {
    let now = dt(2024, 2, 29, 8, 0, 0);
    assert_eq!(parse("tomorrow", now), Ok(dt(2024, 3, 1, 0, 0, 0)));
}

#[test]
fn tomorrow_at_year_end() {
    let now = dt(2023, 12, 31, 23, 59, 59);
    assert_eq!(parse("tomorrow", now), Ok(dt(2024, 1, 1, 0, 0, 0)));
}

#[test]
fn tomorrow_past_last_year_fails() {
    let now = dt(9999, 12, 31, 0, 0, 0);
    assert_eq!(kind(parse("tomorrow", now)), ErrorKind::OutOfRangeField);
}

#[test]
fn yesterday_before_first_year_fails() {
    let now = dt(1, 1, 1, 0, 0, 0);
    assert_eq!(kind(parse("yesterday", now)), ErrorKind::OutOfRangeField);
}

#[test]
fn three_days_ago_crosses_february() {
    let now = dt(2024, 3, 2, 12, 0, 0);
    assert_eq!(parse("3 days ago", now), Ok(dt(2024, 2, 28, 0, 0, 0)));
    assert_eq!(parse_with_default_time("3 days ago", now, 7), Ok(dt(2024, 2, 28, 7, 0, 0)));
}

#[test]
fn next_monday_from_wednesday() {
    let now = dt(2024, 1, 10, 12, 0, 0);
    assert_eq!(parse("next monday", now), Ok(dt(2024, 1, 15, 0, 0, 0)));
}

#[test]
fn next_monday_from_monday_is_a_week_ahead() {
    let now = dt(2024, 1, 15, 12, 0, 0);
    assert_eq!(parse("NEXT Monday", now), Ok(dt(2024, 1, 22, 0, 0, 0)));
}

#[test]
fn last_and_this_weekday() {
    let now = dt(2024, 1, 10, 12, 0, 0);
    assert_eq!(parse("last friday", now), Ok(dt(2024, 1, 5, 0, 0, 0)));
    assert_eq!(parse("last wed", now), Ok(dt(2024, 1, 3, 0, 0, 0)));
    assert_eq!(parse("this sunday", now), Ok(dt(2024, 1, 14, 0, 0, 0)));
    assert_eq!(parse("this monday", now), Ok(dt(2024, 1, 8, 0, 0, 0)));
    assert_eq!(parse("this wednesday", now), Ok(dt(2024, 1, 10, 0, 0, 0)));
}

#[test]
fn empty_text_is_unrecognized() {
    let now = dt(2024, 1, 10, 12, 0, 0);
    assert_eq!(
        parse("", now),
        Err(ParseError { kind: ErrorKind::UnrecognizedInput, start: 0, end: 0 })
    );
}

#[test]
fn default_hour_out_of_range() {
    let now = dt(2024, 1, 10, 12, 0, 0);
    assert_eq!(
        parse_with_default_time("today", now, 24),
        Err(ParseError { kind: ErrorKind::OutOfRangeField, start: 0, end: 0 })
    );
    assert_eq!(kind(parse_with_default_time("today", now, -1)), ErrorKind::OutOfRangeField);
}

#[test]
fn month_end_is_clamped_in_leap_year() {
    let now = dt(2024, 1, 31, 10, 0, 0);
    assert_eq!(parse("1 month from now", now), Ok(dt(2024, 2, 29, 0, 0, 0)));
}

#[test]
fn month_end_is_clamped_in_common_year() {
    let now = dt(2023, 1, 31, 10, 0, 0);
    assert_eq!(parse("1 month from now", now), Ok(dt(2023, 2, 28, 0, 0, 0)));
}

#[test]
fn year_from_leap_day() {
    let now = dt(2024, 2, 29, 10, 0, 0);
    assert_eq!(parse("1 year from now", now), Ok(dt(2025, 2, 28, 0, 0, 0)));
}

#[test]
fn weeks_without_direction_are_ahead() {
    let now = dt(2024, 1, 10, 10, 0, 0);
    assert_eq!(parse("2 weeks", now), Ok(dt(2024, 1, 24, 0, 0, 0)));
}

#[test]
fn hours_carry_into_previous_day() {
    let now = dt(2024, 3, 1, 1, 30, 0);
    assert_eq!(parse("2 hours ago", now), Ok(dt(2024, 2, 29, 23, 30, 0)));
}

#[test]
fn minutes_carry_into_next_year() {
    let now = dt(2024, 12, 31, 23, 0, 0);
    assert_eq!(parse("90 minutes later", now), Ok(dt(2025, 1, 1, 0, 30, 0)));
}

#[test]
fn seconds_ago() {
    let now = dt(2024, 1, 1, 0, 0, 5);
    assert_eq!(parse("10 seconds ago", now), Ok(dt(2023, 12, 31, 23, 59, 55)));
}

#[test]
fn now_is_unchanged() {
    let now = dt(2024, 1, 10, 12, 34, 56);
    assert_eq!(parse("now", now), Ok(now));
}

#[test]
fn absolute_dates() {
    let now = dt(2024, 6, 1, 12, 0, 0);
    assert_eq!(parse("2024-01-05", now), Ok(dt(2024, 1, 5, 0, 0, 0)));
    assert_eq!(parse("2023/12/25", now), Ok(dt(2023, 12, 25, 0, 0, 0)));
    assert_eq!(parse("12/25/2023", now), Ok(dt(2023, 12, 25, 0, 0, 0)));
    assert_eq!(parse("jan 5, 2025", now), Ok(dt(2025, 1, 5, 0, 0, 0)));
    assert_eq!(parse("5 March 2020", now), Ok(dt(2020, 3, 5, 0, 0, 0)));
}

#[test]
fn date_without_year_keeps_reference_year() {
    let now = dt(2024, 6, 1, 12, 0, 0);
    assert_eq!(parse("1/5", now), Ok(dt(2024, 1, 5, 0, 0, 0)));
    assert_eq!(parse("sept 30", now), Ok(dt(2024, 9, 30, 0, 0, 0)));
}

#[test]
fn missing_leap_day_is_out_of_range() {
    let now = dt(2023, 6, 1, 12, 0, 0);
    assert_eq!(kind(parse("feb 29", now)), ErrorKind::OutOfRangeField);
    assert_eq!(kind(parse("2024-13-01", now)), ErrorKind::OutOfRangeField);
}

#[test]
fn times_of_day() {
    let now = dt(2024, 6, 1, 12, 0, 0);
    assert_eq!(parse("10:30", now), Ok(dt(2024, 6, 1, 10, 30, 0)));
    assert_eq!(parse("7:05:09", now), Ok(dt(2024, 6, 1, 7, 5, 9)));
    assert_eq!(parse("noon", now), Ok(dt(2024, 6, 1, 12, 0, 0)));
    assert_eq!(parse("midnight", now), Ok(dt(2024, 6, 1, 0, 0, 0)));
    assert_eq!(parse("12am", now), Ok(dt(2024, 6, 1, 0, 0, 0)));
    assert_eq!(parse("12 pm", now), Ok(dt(2024, 6, 1, 12, 0, 0)));
}

#[test]
fn date_with_time() {
    let now = dt(2024, 6, 1, 12, 0, 0);
    assert_eq!(parse("tomorrow at 5pm", now), Ok(dt(2024, 6, 2, 17, 0, 0)));
    assert_eq!(parse("12/25/2023 10:30pm", now), Ok(dt(2023, 12, 25, 22, 30, 0)));
    assert_eq!(parse("2024-01-05 08:15:00", now), Ok(dt(2024, 1, 5, 8, 15, 0)));
    assert_eq!(parse_with_default_time("today noon", now, 9), Ok(dt(2024, 6, 1, 12, 0, 0)));
}

#[test]
fn bad_times_are_out_of_range() {
    let now = dt(2024, 6, 1, 12, 0, 0);
    assert_eq!(kind(parse("25:00", now)), ErrorKind::OutOfRangeField);
    assert_eq!(kind(parse("13pm", now)), ErrorKind::OutOfRangeField);
    assert_eq!(kind(parse("10:60", now)), ErrorKind::OutOfRangeField);
}

#[test]
fn unknown_words_are_unrecognized() {
    let now = dt(2024, 6, 1, 12, 0, 0);
    assert_eq!(
        parse("blah", now),
        Err(ParseError { kind: ErrorKind::UnrecognizedInput, start: 0, end: 4 })
    );
    assert_eq!(
        parse("tomorrow blah", now),
        Err(ParseError { kind: ErrorKind::UnrecognizedInput, start: 9, end: 13 })
    );
}

#[test]
fn oversized_number_is_out_of_range() {
    let now = dt(2024, 6, 1, 12, 0, 0);
    assert_eq!(
        parse("99999999999999 days ago", now),
        Err(ParseError { kind: ErrorKind::OutOfRangeField, start: 0, end: 14 })
    );
    assert_eq!(kind(parse("100000 years ago", now)), ErrorKind::OutOfRangeField);
    assert_eq!(kind(parse("5000000 days", now)), ErrorKind::OutOfRangeField);
}

#[test]
fn formatted_date_time_reads_back() {
    let now = dt(2024, 6, 1, 12, 0, 0);
    for t in [dt(987, 6, 5, 4, 3, 2), dt(2024, 2, 29, 23, 59, 59), dt(1, 1, 1, 0, 0, 0), dt(9999, 12, 31, 12, 0, 0)] {
        let text = String::from_utf8(format_bytes(&t)).unwrap();
        assert_eq!(parse_with_default_time(&text, now, 5), Ok(t));
    }
    let text = String::from_utf8(format_bytes(&dt(987, 6, 5, 4, 3, 2))).unwrap();
    assert_eq!(text, "0987-06-05 04:03:02");
}
