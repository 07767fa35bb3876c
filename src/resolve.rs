//! Turning an intent into a date and time, relative to a reference instant.
use vstd::prelude::*;
use crate::calendar::{
    Date, DateTime, MAX_YEAR, MIN_YEAR, add_days, add_days_spec, add_months, add_months_spec, at_time,
    days_in_month, month_length, weekday, weekday_of,
};
use crate::error::{ErrorKind, ParseError, error_of};
use crate::grammar::{DatePart, DayKeyword, Intent, Meridiem, Ordinal, TimeOfDay};
use crate::token::{NUMBER_LIMIT, Unit};

verus! {

/// Added to a signed count of seconds so that it can be divided as a natural number.
const OFFSET_DAYS: i64 = 50_000_000_000;

pub open spec fn out_of_range() -> ParseError {
    error_of(ErrorKind::OutOfRangeField)
}

/// The hour given to a date that comes without a time of day.
pub open spec fn default_hour_of(default_hour: Option<u8>) -> int {
    match default_hour {
        Some(h) => h as int,
        None => 0,
    }
}

/// How many days lie from weekday `current` to the wanted occurrence of `target`.
pub open spec fn weekday_delta(ordinal: Ordinal, current: int, target: int) -> int {
    match ordinal {
        Ordinal::Next => (target - current + 6) % 7 + 1,
        Ordinal::Last => -((current - target + 6) % 7 + 1),
        Ordinal::This => target - current,
    }
}

pub open spec fn found(d: Option<Date>) -> Result<Date, ParseError> {
    match d {
        Some(d) => Ok(d),
        None => Err(out_of_range()),
    }
}

/// The day that a date part names, seen from `today`.
pub open spec fn day_of(dp: DatePart, today: Date) -> Result<Date, ParseError> {
    match dp {
        DatePart::Keyword(k) => {
            let n = match k {
                DayKeyword::Today => 0,
                DayKeyword::Tomorrow => 1,
                DayKeyword::Yesterday => -1,
            };
            found(add_days_spec(today, n))
        },
        DatePart::Weekday { ordinal, weekday } => {
            if weekday >= 7 {
                Err(out_of_range())
            } else {
                found(add_days_spec(today, weekday_delta(ordinal, weekday_of(today), weekday as int)))
            }
        },
        DatePart::Absolute { year, month, day } => {
            let y = match year {
                Some(y) => y as int,
                None => today.year as int,
            };
            if MIN_YEAR <= y <= MAX_YEAR && 1 <= month <= 12 && 1 <= day <= days_in_month(y, month as int) {
                Ok(Date { year: y as i32, month: month as u8, day: day as u8 })
            } else {
                Err(out_of_range())
            }
        },
    }
}

/// The hour, minute and second of a written time of day, when they are in range.
pub open spec fn clock_of(tp: TimeOfDay) -> Option<(u8, u8, u8)> {
    let h: Option<int> = match tp.meridiem {
        Meridiem::Clock24 => if tp.hour < 24 { Some(tp.hour as int) } else { None },
        Meridiem::Am => if 1 <= tp.hour <= 12 { Some(tp.hour as int % 12) } else { None },
        Meridiem::Pm => if 1 <= tp.hour <= 12 { Some(tp.hour as int % 12 + 12) } else { None },
    };
    if h is Some && tp.minute < 60 && tp.second < 60 {
        Some((h.unwrap() as u8, tp.minute as u8, tp.second as u8))
    } else {
        None
    }
}

/// A day at the default time.
pub open spec fn at_default(d: Option<Date>, default_hour: Option<u8>) -> Result<DateTime, ParseError> {
    match d {
        Some(d) => Ok(at_time(d, default_hour_of(default_hour), 0, 0)),
        None => Err(out_of_range()),
    }
}

/// `now` moved by `secs` seconds, carrying into days, months and years.
pub open spec fn shift_clock(now: DateTime, secs: int) -> Result<DateTime, ParseError> {
    let total = now.hour * 3600 + now.minute * 60 + now.second + secs;
    let rem = total % 86400;
    match add_days_spec(now.date_of(), total / 86400) {
        Some(d) => Ok(at_time(d, rem / 3600, (rem % 3600) / 60, rem % 60)),
        None => Err(out_of_range()),
    }
}

/// `now` moved by `amount` units, backwards when `past`. Days, weeks, months and
/// years give a day at the default time; hours, minutes and seconds keep the clock.
pub open spec fn relative_of(now: DateTime, amount: u64, unit: Unit, past: bool, default_hour: Option<u8>) -> Result<DateTime, ParseError> {
    if amount > NUMBER_LIMIT {
        Err(out_of_range())
    } else {
        let k = if past { -(amount as int) } else { amount as int };
        match unit {
            Unit::Day => at_default(add_days_spec(now.date_of(), k), default_hour),
            Unit::Week => at_default(add_days_spec(now.date_of(), 7 * k), default_hour),
            Unit::Month => at_default(add_months_spec(now.date_of(), k), default_hour),
            Unit::Year => at_default(add_months_spec(now.date_of(), 12 * k), default_hour),
            Unit::Hour => shift_clock(now, 3600 * k),
            Unit::Minute => shift_clock(now, 60 * k),
            Unit::Second => shift_clock(now, k),
        }
    }
}

/// The instant that an intent names, seen from `now`.
pub open spec fn resolution(intent: Intent, now: DateTime, default_hour: Option<u8>) -> Result<DateTime, ParseError> {
    match intent {
        Intent::Now => Ok(now),
        Intent::Date(dp) => match day_of(dp, now.date_of()) {
            Ok(d) => Ok(at_time(d, default_hour_of(default_hour), 0, 0)),
            Err(e) => Err(e),
        },
        Intent::Time(tp) => match clock_of(tp) {
            Some((h, m, s)) => Ok(at_time(now.date_of(), h as int, m as int, s as int)),
            None => Err(out_of_range()),
        },
        Intent::Combined(dp, tp) => match day_of(dp, now.date_of()) {
            Ok(d) => match clock_of(tp) {
                Some((h, m, s)) => Ok(at_time(d, h as int, m as int, s as int)),
                None => Err(out_of_range()),
            },
            Err(e) => Err(e),
        },
        Intent::Relative { amount, unit, past } => relative_of(now, amount, unit, past, default_hour),
    }
}

fn out_of_range_exec() -> (r: ParseError)
    ensures
        r == out_of_range(),
{
    ParseError::new(ErrorKind::OutOfRangeField)
}

fn found_exec(d: Option<Date>) -> (r: Result<Date, ParseError>)
    ensures
        r == found(d),
{
    match d {
        Some(d) => Ok(d),
        None => Err(out_of_range_exec()),
    }
}

/// The day that a date part names, seen from `today`.
pub fn resolve_day(dp: DatePart, today: Date) -> (r: Result<Date, ParseError>)
    requires
        today.wf(),
    ensures
        r == day_of(dp, today),
        r matches Ok(d) ==> d.wf(),
{
    match dp {
        DatePart::Keyword(k) => {
            let n: i64 = match k {
                DayKeyword::Today => 0,
                DayKeyword::Tomorrow => 1,
                DayKeyword::Yesterday => -1,
            };
            found_exec(add_days(today, n))
        },
        DatePart::Weekday { ordinal, weekday: target } => {
            if target >= 7 {
                return Err(out_of_range_exec());
            }
            let current = weekday(today) as i64;
            let target = target as i64;
            let delta: i64 = match ordinal {
                Ordinal::Next => (target - current + 6) % 7 + 1,
                Ordinal::Last => -((current - target + 6) % 7 + 1),
                Ordinal::This => target - current,
            };
            found_exec(add_days(today, delta))
        },
        DatePart::Absolute { year, month, day } => {
            let y: u64 = match year {
                Some(y) => y,
                None => today.year as u64,
            };
            if MIN_YEAR as u64 <= y && y <= MAX_YEAR as u64 && 1 <= month && month <= 12 && 1 <= day
                && day <= month_length(y as i32, month as u8) as u64 {
                Ok(Date { year: y as i32, month: month as u8, day: day as u8 })
            } else {
                Err(out_of_range_exec())
            }
        },
    }
}

/// The hour, minute and second of a written time of day, when they are in range.
pub fn resolve_clock(tp: TimeOfDay) -> (r: Option<(u8, u8, u8)>)
    ensures
        r == clock_of(tp),
        r matches Some((h, m, s)) ==> h < 24 && m < 60 && s < 60,
{
    let h: Option<u64> = match tp.meridiem {
        Meridiem::Clock24 => if tp.hour < 24 { Some(tp.hour) } else { None },
        Meridiem::Am => if 1 <= tp.hour && tp.hour <= 12 { Some(tp.hour % 12) } else { None },
        Meridiem::Pm => if 1 <= tp.hour && tp.hour <= 12 { Some(tp.hour % 12 + 12) } else { None },
    };
    match h {
        Some(h) => {
            if tp.minute < 60 && tp.second < 60 {
                Some((h as u8, tp.minute as u8, tp.second as u8))
            } else {
                None
            }
        },
        None => None,
    }
}

fn at_default_exec(d: Option<Date>, default_hour: Option<u8>) -> (r: Result<DateTime, ParseError>)
    requires
        d matches Some(d) ==> d.wf(),
        default_hour matches Some(h) ==> h < 24,
    ensures
        r == at_default(d, default_hour),
        r matches Ok(t) ==> t.wf(),
{
    match d {
        Some(d) => {
            let h: u8 = match default_hour {
                Some(h) => h,
                None => 0,
            };
            Ok(DateTime::at(d, h, 0, 0))
        },
        None => Err(out_of_range_exec()),
    }
}

fn shift_clock_exec(now: DateTime, secs: i64) -> (r: Result<DateTime, ParseError>)
    requires
        now.wf(),
        -3600 * NUMBER_LIMIT <= secs <= 3600 * NUMBER_LIMIT,
    ensures
        r == shift_clock(now, secs as int),
        r matches Ok(t) ==> t.wf(),
{
    let total: i64 = now.hour as i64 * 3600 + now.minute as i64 * 60 + now.second as i64 + secs;
    let shifted: i64 = total + 86400 * OFFSET_DAYS;
    let q: i64 = shifted / 86400 - OFFSET_DAYS;
    let rem: i64 = shifted % 86400;
    proof {
        vstd::arithmetic::div_mod::lemma_fundamental_div_mod(shifted as int, 86400);
        vstd::arithmetic::div_mod::lemma_fundamental_div_mod_converse(total as int, 86400, q as int, rem as int);
    }
    match add_days(now.date(), q) {
        Some(d) => Ok(DateTime::at(d, (rem / 3600) as u8, ((rem % 3600) / 60) as u8, (rem % 60) as u8)),
        None => Err(out_of_range_exec()),
    }
}

/// `now` moved by `amount` units, backwards when `past`.
pub fn resolve_relative(now: DateTime, amount: u64, unit: Unit, past: bool, default_hour: Option<u8>) -> (r: Result<DateTime, ParseError>)
    requires
        now.wf(),
        default_hour matches Some(h) ==> h < 24,
    ensures
        r == relative_of(now, amount, unit, past, default_hour),
        r matches Ok(t) ==> t.wf(),
{
    if amount > NUMBER_LIMIT {
        return Err(out_of_range_exec());
    }
    let k: i64 = if past { -(amount as i64) } else { amount as i64 };
    match unit {
        Unit::Day => at_default_exec(add_days(now.date(), k), default_hour),
        Unit::Week => at_default_exec(add_days(now.date(), 7 * k), default_hour),
        Unit::Month => at_default_exec(add_months(now.date(), k), default_hour),
        Unit::Year => at_default_exec(add_months(now.date(), 12 * k), default_hour),
        Unit::Hour => shift_clock_exec(now, 3600 * k),
        Unit::Minute => shift_clock_exec(now, 60 * k),
        Unit::Second => shift_clock_exec(now, k),
    }
}

/// The instant that `intent` names, seen from `now`. A day without a time of day
/// gets `default_hour` (midnight when there is none); every field of a result is
/// in range, and a field that would not be fails with `OutOfRangeField`.
pub fn resolve(intent: Intent, now: DateTime, default_hour: Option<u8>) -> (r: Result<DateTime, ParseError>)
    requires
        now.wf(),
        default_hour matches Some(h) ==> h < 24,
    ensures
        r == resolution(intent, now, default_hour),
        r matches Ok(t) ==> t.wf(),
{
    match intent {
        Intent::Now => Ok(now),
        Intent::Date(dp) => {
            let d = resolve_day(dp, now.date());
            match d {
                Ok(d) => at_default_exec(Some(d), default_hour),
                Err(e) => Err(e),
            }
        },
        Intent::Time(tp) => match resolve_clock(tp) {
            Some((h, m, s)) => Ok(DateTime::at(now.date(), h, m, s)),
            None => Err(out_of_range_exec()),
        },
        Intent::Combined(dp, tp) => match resolve_day(dp, now.date()) {
            Ok(d) => match resolve_clock(tp) {
                Some((h, m, s)) => Ok(DateTime::at(d, h, m, s)),
                None => Err(out_of_range_exec()),
            },
            Err(e) => Err(e),
        },
        Intent::Relative { amount, unit, past } => resolve_relative(now, amount, unit, past, default_hour),
    }
}

} // verus!
