//! Matching token sequences against the expression patterns.
//!
//! The patterns are tried in a fixed order and the first that covers every token
//! wins: a date followed by a time, a date alone, a relative offset, `now`, and a
//! time alone. Numeric dates are read as year-month-day when the first number
//! has four digits, as month/day/year when the last has four, and otherwise as
//! month/day of the reference year; a date without a year keeps the reference
//! year even when that day has passed.
use vstd::prelude::*;
use crate::error::{ErrorKind, ParseError, error_at};
use crate::token::{Token, TokenKind, Unit, Word};

verus! {

/// Which occurrence of a weekday is meant.
#[derive(Clone, Copy, Debug, PartialEq, Eq, Structural)]
pub enum Ordinal {
    /// Strictly after the reference date, one to seven days ahead.
    Next,
    /// Strictly before the reference date, one to seven days back.
    Last,
    /// Within the reference date's week, which starts on Monday.
    This,
}

/// A keyword that names a day relative to the reference date.
#[derive(Clone, Copy, Debug, PartialEq, Eq, Structural)]
pub enum DayKeyword {
    Today,
    Tomorrow,
    Yesterday,
}

/// The part of an expression that names a day.
#[derive(Clone, Copy, Debug, PartialEq, Eq, Structural)]
pub enum DatePart {
    Keyword(DayKeyword),
    /// A weekday, 0 (Monday) to 6 (Sunday), and which occurrence of it.
    Weekday { ordinal: Ordinal, weekday: u8 },
    /// A day given by numbers or a month name; without a year, the reference year.
    Absolute { year: Option<u64>, month: u64, day: u64 },
}

/// How the hour of a time of day is to be read.
#[derive(Clone, Copy, Debug, PartialEq, Eq, Structural)]
pub enum Meridiem {
    /// An hour of the 24-hour clock, 0 to 23.
    Clock24,
    /// An hour 1 to 12 before noon.
    Am,
    /// An hour 1 to 12 after noon.
    Pm,
}

/// A time of day as written; its fields are checked when it is resolved.
#[derive(Clone, Copy, Debug, PartialEq, Eq, Structural)]
pub struct TimeOfDay {
    pub hour: u64,
    pub minute: u64,
    pub second: u64,
    pub meridiem: Meridiem,
}

/// What an expression means, before it is resolved against a reference instant.
#[derive(Clone, Copy, Debug, PartialEq, Eq, Structural)]
pub enum Intent {
    /// The reference instant itself.
    Now,
    /// A day, at the default time.
    Date(DatePart),
    /// A time of day on the reference date.
    Time(TimeOfDay),
    /// A day at a given time.
    Combined(DatePart, TimeOfDay),
    /// An amount of units before (`past`) or after the reference instant.
    Relative { amount: u64, unit: Unit, past: bool },
}

pub open spec fn kind_at(t: Seq<Token>, i: int) -> Option<TokenKind> {
    if 0 <= i < t.len() {
        Some(t[i].kind)
    } else {
        None
    }
}

/// The value and digit count of the number at `i`, if a number stands there.
pub open spec fn number_at(t: Seq<Token>, i: int) -> Option<(u64, usize)> {
    match kind_at(t, i) {
        Some(TokenKind::Number { value, digits }) => Some((value, digits)),
        _ => None,
    }
}

pub open spec fn word_at(t: Seq<Token>, i: int) -> Option<Word> {
    match kind_at(t, i) {
        Some(TokenKind::Word(w)) => Some(w),
        _ => None,
    }
}

pub open spec fn symbol_at(t: Seq<Token>, i: int) -> Option<u8> {
    match kind_at(t, i) {
        Some(TokenKind::Symbol(c)) => Some(c),
        _ => None,
    }
}

pub open spec fn is_date_separator(c: u8) -> bool {
    c == '-' as u8 || c == '/' as u8
}

/// `year-month-day` (or with `/`), where the year has four digits.
pub open spec fn year_first_date(t: Seq<Token>, i: int) -> Option<(DatePart, int)> {
    match (number_at(t, i), symbol_at(t, i + 1), number_at(t, i + 2), symbol_at(t, i + 3), number_at(t, i + 4)) {
        (Some((y, yd)), Some(s1), Some((m, _)), Some(s2), Some((d, _))) => {
            if yd == 4 && is_date_separator(s1) && s2 == s1 {
                Some((DatePart::Absolute { year: Some(y), month: m, day: d }, i + 5))
            } else {
                None
            }
        },
        _ => None,
    }
}

/// `month/day/year` (or with `-`), where month and day have at most two digits
/// and the year four.
pub open spec fn month_first_date(t: Seq<Token>, i: int) -> Option<(DatePart, int)> {
    match (number_at(t, i), symbol_at(t, i + 1), number_at(t, i + 2), symbol_at(t, i + 3), number_at(t, i + 4)) {
        (Some((m, md)), Some(s1), Some((d, dd)), Some(s2), Some((y, yd))) => {
            if md <= 2 && dd <= 2 && yd == 4 && is_date_separator(s1) && s2 == s1 {
                Some((DatePart::Absolute { year: Some(y), month: m, day: d }, i + 5))
            } else {
                None
            }
        },
        _ => None,
    }
}

/// `month/day` (or with `-`), with no year; both have at most two digits.
pub open spec fn month_day(t: Seq<Token>, i: int) -> Option<(DatePart, int)> {
    match (number_at(t, i), symbol_at(t, i + 1), number_at(t, i + 2)) {
        (Some((m, md)), Some(s1), Some((d, dd))) => {
            if md <= 2 && dd <= 2 && is_date_separator(s1) {
                Some((DatePart::Absolute { year: None, month: m, day: d }, i + 3))
            } else {
                None
            }
        },
        _ => None,
    }
}

/// A month name, a day, then a four-digit year, perhaps after a comma.
pub open spec fn named_month_date(t: Seq<Token>, i: int) -> Option<(DatePart, int)> {
    match (word_at(t, i), number_at(t, i + 1)) {
        (Some(Word::Month(m)), Some((d, _))) => {
            let k = if symbol_at(t, i + 2) == Some(',' as u8) { i + 3 } else { i + 2 };
            match number_at(t, k) {
                Some((y, 4)) => Some((DatePart::Absolute { year: Some(y), month: m as u64, day: d }, k + 1)),
                _ => Some((DatePart::Absolute { year: None, month: m as u64, day: d }, i + 2)),
            }
        },
        _ => None,
    }
}

/// A day, a month name, then perhaps a four-digit year.
pub open spec fn day_month_date(t: Seq<Token>, i: int) -> Option<(DatePart, int)> {
    match (number_at(t, i), word_at(t, i + 1)) {
        (Some((d, _)), Some(Word::Month(m))) => {
            match number_at(t, i + 2) {
                Some((y, 4)) => Some((DatePart::Absolute { year: Some(y), month: m as u64, day: d }, i + 3)),
                _ => Some((DatePart::Absolute { year: None, month: m as u64, day: d }, i + 2)),
            }
        },
        _ => None,
    }
}

/// `today`, `tomorrow`, `yesterday`, or `next`, `last` or `this` and a weekday.
pub open spec fn named_day(t: Seq<Token>, i: int) -> Option<(DatePart, int)> {
    match word_at(t, i) {
        Some(Word::Today) => Some((DatePart::Keyword(DayKeyword::Today), i + 1)),
        Some(Word::Tomorrow) => Some((DatePart::Keyword(DayKeyword::Tomorrow), i + 1)),
        Some(Word::Yesterday) => Some((DatePart::Keyword(DayKeyword::Yesterday), i + 1)),
        Some(w) => {
            let ordinal = if w == Word::Next {
                Some(Ordinal::Next)
            } else if w == Word::Last {
                Some(Ordinal::Last)
            } else if w == Word::This {
                Some(Ordinal::This)
            } else {
                None
            };
            match (ordinal, word_at(t, i + 1)) {
                (Some(o), Some(Word::Weekday(d))) => Some((DatePart::Weekday { ordinal: o, weekday: d }, i + 2)),
                _ => None,
            }
        },
        None => None,
    }
}

/// The first date pattern, in order of priority, that matches at `i`, and where it ends.
pub open spec fn date_part_at(t: Seq<Token>, i: int) -> Option<(DatePart, int)> {
    if year_first_date(t, i) is Some {
        year_first_date(t, i)
    } else if month_first_date(t, i) is Some {
        month_first_date(t, i)
    } else if month_day(t, i) is Some {
        month_day(t, i)
    } else if named_month_date(t, i) is Some {
        named_month_date(t, i)
    } else if day_month_date(t, i) is Some {
        day_month_date(t, i)
    } else {
        named_day(t, i)
    }
}

/// `am` or `pm` at `k`, or the 24-hour clock when neither stands there.
pub open spec fn meridiem_at(t: Seq<Token>, k: int) -> (Meridiem, int) {
    match word_at(t, k) {
        Some(Word::Am) => (Meridiem::Am, k + 1),
        Some(Word::Pm) => (Meridiem::Pm, k + 1),
        _ => (Meridiem::Clock24, k),
    }
}

/// `h:mm`, `h:mm:ss`, `h am`/`h pm` (also after a clock time), `noon` or `midnight`.
pub open spec fn time_part_at(t: Seq<Token>, i: int) -> Option<(TimeOfDay, int)> {
    match (number_at(t, i), symbol_at(t, i + 1), number_at(t, i + 2)) {
        (Some((h, hd)), Some(c1), Some((m, md))) => {
            if hd <= 2 && c1 == ':' as u8 && md == 2 {
                match (symbol_at(t, i + 3), number_at(t, i + 4)) {
                    (Some(c2), Some((s, sd))) => {
                        if c2 == ':' as u8 && sd == 2 {
                            let (mer, e) = meridiem_at(t, i + 5);
                            Some((TimeOfDay { hour: h, minute: m, second: s, meridiem: mer }, e))
                        } else {
                            None
                        }
                    },
                    _ => {
                        let (mer, e) = meridiem_at(t, i + 3);
                        Some((TimeOfDay { hour: h, minute: m, second: 0, meridiem: mer }, e))
                    },
                }
            } else {
                None
            }
        },
        (Some((h, hd)), _, _) => {
            let (mer, e) = meridiem_at(t, i + 1);
            if hd <= 2 && mer != Meridiem::Clock24 {
                Some((TimeOfDay { hour: h, minute: 0, second: 0, meridiem: mer }, e))
            } else {
                None
            }
        },
        _ => match word_at(t, i) {
            Some(Word::Noon) => Some(
                (TimeOfDay { hour: 12, minute: 0, second: 0, meridiem: Meridiem::Clock24 }, i + 1),
            ),
            Some(Word::Midnight) => Some(
                (TimeOfDay { hour: 0, minute: 0, second: 0, meridiem: Meridiem::Clock24 }, i + 1),
            ),
            _ => None,
        },
    }
}

/// `N unit`, then `ago`, `later`, `from now` or nothing (the future).
pub open spec fn relative_at(t: Seq<Token>, i: int) -> Option<(Intent, int)> {
    match (number_at(t, i), word_at(t, i + 1)) {
        (Some((n, _)), Some(Word::Unit(u))) => {
            match word_at(t, i + 2) {
                Some(Word::Ago) => Some((Intent::Relative { amount: n, unit: u, past: true }, i + 3)),
                Some(Word::Later) => Some((Intent::Relative { amount: n, unit: u, past: false }, i + 3)),
                Some(Word::From) => {
                    if word_at(t, i + 3) == Some(Word::Now) {
                        Some((Intent::Relative { amount: n, unit: u, past: false }, i + 4))
                    } else {
                        None
                    }
                },
                _ => Some((Intent::Relative { amount: n, unit: u, past: false }, i + 2)),
            }
        },
        _ => None,
    }
}

/// Where the time part of `date at time` starts, after the date ends at `j`.
pub open spec fn skip_at(t: Seq<Token>, j: int) -> int {
    if word_at(t, j) == Some(Word::At) {
        j + 1
    } else {
        j
    }
}

/// The byte span of token `i`, or an empty span when there is no such token.
pub open spec fn unmatched(t: Seq<Token>, i: int) -> ParseError {
    if 0 <= i < t.len() {
        error_at(ErrorKind::UnrecognizedInput, t[i].start as int, t[i].end as int)
    } else {
        error_at(ErrorKind::UnrecognizedInput, 0, 0)
    }
}

/// The intent of a whole token sequence: the first rule, in order of priority,
/// that consumes every token. Without one, `UnrecognizedInput` over the first
/// token that the date rules left unread.
pub open spec fn intent_of(t: Seq<Token>) -> Result<Intent, ParseError> {
    let n = t.len() as int;
    let date = date_part_at(t, 0);
    let combined = match date {
        Some((dp, j)) => match time_part_at(t, skip_at(t, j)) {
            Some((tp, e)) => if j < n && e == n { Some(Intent::Combined(dp, tp)) } else { None },
            None => None,
        },
        None => None,
    };
    if n == 0 {
        Err(unmatched(t, 0))
    } else if combined is Some {
        Ok(combined.unwrap())
    } else if date matches Some((dp, j)) && j == n {
        Ok(Intent::Date(date.unwrap().0))
    } else if relative_at(t, 0) matches Some((r, e)) && e == n {
        Ok(relative_at(t, 0).unwrap().0)
    } else if n == 1 && word_at(t, 0) == Some(Word::Now) {
        Ok(Intent::Now)
    } else if time_part_at(t, 0) matches Some((tp, e)) && e == n {
        Ok(Intent::Time(time_part_at(t, 0).unwrap().0))
    } else {
        match date {
            Some((_, j)) => Err(unmatched(t, j)),
            None => Err(unmatched(t, 0)),
        }
    }
}

/// A position result seen with an integer position.
pub open spec fn at_int<A>(r: Option<(A, usize)>) -> Option<(A, int)> {
    match r {
        Some((a, e)) => Some((a, e as int)),
        None => None,
    }
}

fn kind_at_exec(t: &Vec<Token>, i: usize, k: usize) -> (r: Option<TokenKind>)
    ensures
        r == kind_at(t@, i + k),
        r is Some ==> i + k < t@.len() <= usize::MAX,
{
    if i < t.len() && k < t.len() - i {
        Some(t[i + k].kind)
    } else {
        None
    }
}

fn number_at_exec(t: &Vec<Token>, i: usize, k: usize) -> (r: Option<(u64, usize)>)
    ensures
        r == number_at(t@, i + k),
        r is Some ==> i + k < t@.len() <= usize::MAX,
{
    match kind_at_exec(t, i, k) {
        Some(TokenKind::Number { value, digits }) => Some((value, digits)),
        _ => None,
    }
}

fn word_at_exec(t: &Vec<Token>, i: usize, k: usize) -> (r: Option<Word>)
    ensures
        r == word_at(t@, i + k),
        r is Some ==> i + k < t@.len() <= usize::MAX,
{
    match kind_at_exec(t, i, k) {
        Some(TokenKind::Word(w)) => Some(w),
        _ => None,
    }
}

fn symbol_at_exec(t: &Vec<Token>, i: usize, k: usize) -> (r: Option<u8>)
    ensures
        r == symbol_at(t@, i + k),
        r is Some ==> i + k < t@.len() <= usize::MAX,
{
    match kind_at_exec(t, i, k) {
        Some(TokenKind::Symbol(c)) => Some(c),
        _ => None,
    }
}

fn date_separator(c: u8) -> (r: bool)
    ensures
        r == is_date_separator(c),
{
    c == '-' as u8 || c == '/' as u8
}

fn match_year_first_date(t: &Vec<Token>, i: usize) -> (r: Option<(DatePart, usize)>)
    ensures
        at_int(r) == year_first_date(t@, i as int),
{
    match (
        number_at_exec(t, i, 0),
        symbol_at_exec(t, i, 1),
        number_at_exec(t, i, 2),
        symbol_at_exec(t, i, 3),
        number_at_exec(t, i, 4),
    ) {
        (Some((y, yd)), Some(s1), Some((m, _)), Some(s2), Some((d, _))) => {
            if yd == 4 && date_separator(s1) && s2 == s1 {
                Some((DatePart::Absolute { year: Some(y), month: m, day: d }, i + 5))
            } else {
                None
            }
        },
        _ => None,
    }
}

fn match_month_first_date(t: &Vec<Token>, i: usize) -> (r: Option<(DatePart, usize)>)
    ensures
        at_int(r) == month_first_date(t@, i as int),
{
    match (
        number_at_exec(t, i, 0),
        symbol_at_exec(t, i, 1),
        number_at_exec(t, i, 2),
        symbol_at_exec(t, i, 3),
        number_at_exec(t, i, 4),
    ) {
        (Some((m, md)), Some(s1), Some((d, dd)), Some(s2), Some((y, yd))) => {
            if md <= 2 && dd <= 2 && yd == 4 && date_separator(s1) && s2 == s1 {
                Some((DatePart::Absolute { year: Some(y), month: m, day: d }, i + 5))
            } else {
                None
            }
        },
        _ => None,
    }
}

fn match_month_day(t: &Vec<Token>, i: usize) -> (r: Option<(DatePart, usize)>)
    ensures
        at_int(r) == month_day(t@, i as int),
{
    match (number_at_exec(t, i, 0), symbol_at_exec(t, i, 1), number_at_exec(t, i, 2)) {
        (Some((m, md)), Some(s1), Some((d, dd))) => {
            if md <= 2 && dd <= 2 && date_separator(s1) {
                Some((DatePart::Absolute { year: None, month: m, day: d }, i + 3))
            } else {
                None
            }
        },
        _ => None,
    }
}

fn match_named_month_date(t: &Vec<Token>, i: usize) -> (r: Option<(DatePart, usize)>)
    ensures
        at_int(r) == named_month_date(t@, i as int),
{
    match (word_at_exec(t, i, 0), number_at_exec(t, i, 1)) {
        (Some(Word::Month(m)), Some((d, _))) => {
            let k: usize = if symbol_at_exec(t, i, 2) == Some(',' as u8) { 3 } else { 2 };
            match number_at_exec(t, i, k) {
                Some((y, 4)) => Some(
                    (DatePart::Absolute { year: Some(y), month: m as u64, day: d }, i + k + 1),
                ),
                _ => Some((DatePart::Absolute { year: None, month: m as u64, day: d }, i + 2)),
            }
        },
        _ => None,
    }
}

fn match_day_month_date(t: &Vec<Token>, i: usize) -> (r: Option<(DatePart, usize)>)
    ensures
        at_int(r) == day_month_date(t@, i as int),
{
    match (number_at_exec(t, i, 0), word_at_exec(t, i, 1)) {
        (Some((d, _)), Some(Word::Month(m))) => {
            match number_at_exec(t, i, 2) {
                Some((y, 4)) => Some(
                    (DatePart::Absolute { year: Some(y), month: m as u64, day: d }, i + 3),
                ),
                _ => Some((DatePart::Absolute { year: None, month: m as u64, day: d }, i + 2)),
            }
        },
        _ => None,
    }
}

fn match_named_day(t: &Vec<Token>, i: usize) -> (r: Option<(DatePart, usize)>)
    ensures
        at_int(r) == named_day(t@, i as int),
{
    match word_at_exec(t, i, 0) {
        Some(Word::Today) => Some((DatePart::Keyword(DayKeyword::Today), i + 1)),
        Some(Word::Tomorrow) => Some((DatePart::Keyword(DayKeyword::Tomorrow), i + 1)),
        Some(Word::Yesterday) => Some((DatePart::Keyword(DayKeyword::Yesterday), i + 1)),
        Some(w) => {
            let ordinal = if w == Word::Next {
                Some(Ordinal::Next)
            } else if w == Word::Last {
                Some(Ordinal::Last)
            } else if w == Word::This {
                Some(Ordinal::This)
            } else {
                None
            };
            match (ordinal, word_at_exec(t, i, 1)) {
                (Some(o), Some(Word::Weekday(d))) => Some(
                    (DatePart::Weekday { ordinal: o, weekday: d }, i + 2),
                ),
                _ => None,
            }
        },
        None => None,
    }
}

/// The first date pattern that matches at token `i`, and the position after it.
pub fn match_date_part(t: &Vec<Token>, i: usize) -> (r: Option<(DatePart, usize)>)
    ensures
        at_int(r) == date_part_at(t@, i as int),
{
    let r = match_year_first_date(t, i);
    if r.is_some() {
        return r;
    }
    let r = match_month_first_date(t, i);
    if r.is_some() {
        return r;
    }
    let r = match_month_day(t, i);
    if r.is_some() {
        return r;
    }
    let r = match_named_month_date(t, i);
    if r.is_some() {
        return r;
    }
    let r = match_day_month_date(t, i);
    if r.is_some() {
        return r;
    }
    match_named_day(t, i)
}

fn match_meridiem(t: &Vec<Token>, k: usize) -> (r: (Meridiem, usize))
    ensures
        (r.0, r.1 as int) == meridiem_at(t@, k as int),
        r.1 <= k + 1,
{
    match word_at_exec(t, k, 0) {
        Some(Word::Am) => (Meridiem::Am, k + 1),
        Some(Word::Pm) => (Meridiem::Pm, k + 1),
        _ => (Meridiem::Clock24, k),
    }
}

/// The time pattern that matches at token `i`, and the position after it.
pub fn match_time_part(t: &Vec<Token>, i: usize) -> (r: Option<(TimeOfDay, usize)>)
    ensures
        at_int(r) == time_part_at(t@, i as int),
{
    match (number_at_exec(t, i, 0), symbol_at_exec(t, i, 1), number_at_exec(t, i, 2)) {
        (Some((h, hd)), Some(c1), Some((m, md))) => {
            if hd <= 2 && c1 == ':' as u8 && md == 2 {
                match (symbol_at_exec(t, i, 3), number_at_exec(t, i, 4)) {
                    (Some(c2), Some((s, sd))) => {
                        if c2 == ':' as u8 && sd == 2 {
                            let (mer, e) = match_meridiem(t, i + 5);
                            Some((TimeOfDay { hour: h, minute: m, second: s, meridiem: mer }, e))
                        } else {
                            None
                        }
                    },
                    _ => {
                        let (mer, e) = match_meridiem(t, i + 3);
                        Some((TimeOfDay { hour: h, minute: m, second: 0, meridiem: mer }, e))
                    },
                }
            } else {
                None
            }
        },
        (Some((h, hd)), _, _) => {
            let (mer, e) = match_meridiem(t, i + 1);
            if hd <= 2 && mer != Meridiem::Clock24 {
                Some((TimeOfDay { hour: h, minute: 0, second: 0, meridiem: mer }, e))
            } else {
                None
            }
        },
        _ => match word_at_exec(t, i, 0) {
            Some(Word::Noon) => Some(
                (TimeOfDay { hour: 12, minute: 0, second: 0, meridiem: Meridiem::Clock24 }, i + 1),
            ),
            Some(Word::Midnight) => Some(
                (TimeOfDay { hour: 0, minute: 0, second: 0, meridiem: Meridiem::Clock24 }, i + 1),
            ),
            _ => None,
        },
    }
}

fn match_relative(t: &Vec<Token>) -> (r: Option<(Intent, usize)>)
    ensures
        at_int(r) == relative_at(t@, 0),
{
    match (number_at_exec(t, 0, 0), word_at_exec(t, 0, 1)) {
        (Some((n, _)), Some(Word::Unit(u))) => {
            match word_at_exec(t, 0, 2) {
                Some(Word::Ago) => Some((Intent::Relative { amount: n, unit: u, past: true }, 3)),
                Some(Word::Later) => Some((Intent::Relative { amount: n, unit: u, past: false }, 3)),
                Some(Word::From) => {
                    if word_at_exec(t, 0, 3) == Some(Word::Now) {
                        Some((Intent::Relative { amount: n, unit: u, past: false }, 4))
                    } else {
                        None
                    }
                },
                _ => Some((Intent::Relative { amount: n, unit: u, past: false }, 2)),
            }
        },
        _ => None,
    }
}

fn unmatched_exec(t: &Vec<Token>, i: usize) -> (r: ParseError)
    ensures
        r == unmatched(t@, i as int),
{
    if i < t.len() {
        ParseError { kind: ErrorKind::UnrecognizedInput, start: t[i].start, end: t[i].end }
    } else {
        ParseError { kind: ErrorKind::UnrecognizedInput, start: 0, end: 0 }
    }
}

/// The intent of a whole token sequence, by the rules of `intent_of`.
pub fn match_tokens(t: &Vec<Token>) -> (r: Result<Intent, ParseError>)
    ensures
        r == intent_of(t@),
{
    let n = t.len();
    if n == 0 {
        return Err(unmatched_exec(t, 0));
    }
    let date = match_date_part(t, 0);
    if let Some((dp, j)) = date {
        let k: usize = if word_at_exec(t, j, 0) == Some(Word::At) { j + 1 } else { j };
        if let Some((tp, e)) = match_time_part(t, k) {
            if j < n && e == n {
                return Ok(Intent::Combined(dp, tp));
            }
        }
        if j == n {
            return Ok(Intent::Date(dp));
        }
    }
    if let Some((r, e)) = match_relative(t) {
        if e == n {
            return Ok(r);
        }
    }
    if n == 1 && word_at_exec(t, 0, 0) == Some(Word::Now) {
        return Ok(Intent::Now);
    }
    if let Some((tp, e)) = match_time_part(t, 0) {
        if e == n {
            return Ok(Intent::Time(tp));
        }
    }
    match date {
        Some((_, j)) => Err(unmatched_exec(t, j)),
        None => Err(unmatched_exec(t, 0)),
    }
}

} // verus!
