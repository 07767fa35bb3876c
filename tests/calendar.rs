use fuzzydate::calendar::{add_days, add_months, day_number_of, leap_year, month_length, weekday, Date, DateTime};
use fuzzydate::token::{tokenize, Token, TokenKind, Unit, Word};

fn date(year: i32, month: u8, day: u8) -> Date {
    Date { year, month, day }
}

#[test]
fn leap_years() {
    assert!(leap_year(2024));
    assert!(!leap_year(2023));
    assert!(!leap_year(1900));
    assert!(leap_year(2000));
    assert_eq!(month_length(2024, 2), 29);
    assert_eq!(month_length(2023, 2), 28);
    assert_eq!(month_length(2023, 4), 30);
}

#[test]
fn day_numbers_and_weekdays() {
    assert_eq!(day_number_of(date(1, 1, 1)), 0);
    assert_eq!(day_number_of(date(1, 1, 2)), 1);
    assert_eq!(day_number_of(date(2, 1, 1)), 365);
    assert_eq!(weekday(date(2024, 1, 1)), 0);
    assert_eq!(weekday(date(2024, 1, 10)), 2);
    assert_eq!(weekday(date(2023, 12, 31)), 6);
}

#[test]
fn adding_days() {
    assert_eq!(add_days(date(2024, 2, 28), 2), Some(date(2024, 3, 1)));
    assert_eq!(add_days(date(2024, 1, 1), -1), Some(date(2023, 12, 31)));
    assert_eq!(add_days(date(9999, 12, 30), 2), None);
}

#[test]
fn adding_months_clamps_the_day() {
    assert_eq!(add_months(date(2024, 1, 31), 1), Some(date(2024, 2, 29)));
    assert_eq!(add_months(date(2024, 3, 31), -1), Some(date(2024, 2, 29)));
    assert_eq!(add_months(date(2024, 11, 15), 3), Some(date(2025, 2, 15)));
    assert_eq!(add_months(date(1, 1, 1), -1), None);
}

#[test]
fn invalid_fields_are_refused() {
    assert_eq!(DateTime::new(2023, 2, 29, 0, 0, 0), None);
    assert_eq!(DateTime::new(2024, 4, 31, 0, 0, 0), None);
    assert_eq!(DateTime::new(2024, 4, 30, 24, 0, 0), None);
    assert!(DateTime::new(2024, 2, 29, 23, 59, 59).is_some());
}

#[test]
fn tokens_of_text() {
    let t = tokenize("Jan 5, 3 DAYS").unwrap();
    assert_eq!(
        t,
        vec![
            Token { kind: TokenKind::Word(Word::Month(1)), start: 0, end: 3 },
            Token { kind: TokenKind::Number { value: 5, digits: 1 }, start: 4, end: 5 },
            Token { kind: TokenKind::Symbol(b','), start: 5, end: 6 },
            Token { kind: TokenKind::Number { value: 3, digits: 1 }, start: 7, end: 8 },
            Token { kind: TokenKind::Word(Word::Unit(Unit::Day)), start: 9, end: 13 },
        ]
    );
    assert_eq!(tokenize("   ").unwrap(), vec![]);
}
