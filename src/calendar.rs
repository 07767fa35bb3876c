//! Dates of the proleptic Gregorian calendar from year 1 to year 9999, and the
//! arithmetic on them: stepping by days, shifting by months, weekdays.
use vstd::prelude::*;

verus! {

/// The first year a date may have.
pub const MIN_YEAR: i32 = 1;

/// The last year a date may have.
pub const MAX_YEAR: i32 = 9999;

/// The number of days between the first and the last representable date.
pub const MAX_DAY_SPAN: i64 = 3652059;

/// Whether `y` is a leap year of the proleptic Gregorian calendar.
pub open spec fn is_leap(y: int) -> bool {
    y % 4 == 0 && (y % 100 != 0 || y % 400 == 0)
}

/// The number of days of month `m` (1 to 12) in year `y`.
pub open spec fn days_in_month(y: int, m: int) -> int {
    if m == 2 {
        if is_leap(y) { 29 } else { 28 }
    } else if m == 4 || m == 6 || m == 9 || m == 11 {
        30
    } else {
        31
    }
}

/// A calendar day of the proleptic Gregorian calendar.
#[derive(Clone, Copy, Debug, PartialEq, Eq, Structural)]
pub struct Date {
    pub year: i32,
    pub month: u8,
    pub day: u8,
}

impl Date {
    /// The year lies in the supported range and the day exists in its month.
    pub open spec fn wf(self) -> bool {
        MIN_YEAR <= self.year <= MAX_YEAR && 1 <= self.month <= 12 && 1 <= self.day
            <= days_in_month(self.year as int, self.month as int)
    }
}


/// A calendar date with a time of day, to the second.
#[derive(Clone, Copy, Debug, PartialEq, Eq, Structural)]
pub struct DateTime {
    pub year: i32,
    pub month: u8,
    pub day: u8,
    pub hour: u8,
    pub minute: u8,
    pub second: u8,
}

impl DateTime {
    /// A valid date and a time of day in range.
    pub open spec fn wf(self) -> bool {
        self.date_of().wf() && self.hour < 24 && self.minute < 60 && self.second < 60
    }

    pub open spec fn date_of(self) -> Date {
        Date { year: self.year, month: self.month, day: self.day }
    }

    /// The date and time with these fields, when they form a valid one.
    pub fn new(year: i32, month: u8, day: u8, hour: u8, minute: u8, second: u8) -> (r: Option<DateTime>)
        ensures
            r matches Some(t) ==> t.wf() && t == (DateTime { year, month, day, hour, minute, second }),
            r is None ==> !(DateTime { year, month, day, hour, minute, second }).wf(),
    {
        if MIN_YEAR <= year && year <= MAX_YEAR && 1 <= month && month <= 12 && 1 <= day
            && day <= month_length(year, month) && hour < 24 && minute < 60 && second < 60 {
            Some(DateTime { year, month, day, hour, minute, second })
        } else {
            None
        }
    }

    /// The calendar day of this instant.
    pub fn date(&self) -> (r: Date)
        ensures
            r == self.date_of(),
    {
        Date { year: self.year, month: self.month, day: self.day }
    }

    /// The date `d` at the given time of day.
    pub fn at(d: Date, hour: u8, minute: u8, second: u8) -> (r: DateTime)
        ensures
            r == at_time(d, hour as int, minute as int, second as int),
    {
        DateTime { year: d.year, month: d.month, day: d.day, hour, minute, second }
    }
}

/// The date `d` at the time `h:m:s`.
pub open spec fn at_time(d: Date, h: int, m: int, s: int) -> DateTime {
    DateTime { year: d.year, month: d.month, day: d.day, hour: h as u8, minute: m as u8, second: s as u8 }
}

/// The day after `d`, or `None` past the last supported year.
pub open spec fn next_date(d: Date) -> Option<Date> {
    if (d.day as int) < days_in_month(d.year as int, d.month as int) {
        Some(Date { year: d.year, month: d.month, day: (d.day + 1) as u8 })
    } else if d.month < 12 {
        Some(Date { year: d.year, month: (d.month + 1) as u8, day: 1 })
    } else if d.year < MAX_YEAR {
        Some(Date { year: (d.year + 1) as i32, month: 1, day: 1 })
    } else {
        None
    }
}

/// The day before `d`, or `None` before the first supported year.
pub open spec fn prev_date(d: Date) -> Option<Date> {
    if d.day > 1 {
        Some(Date { year: d.year, month: d.month, day: (d.day - 1) as u8 })
    } else if d.month > 1 {
        Some(
            Date {
                year: d.year,
                month: (d.month - 1) as u8,
                day: days_in_month(d.year as int, d.month - 1) as u8,
            },
        )
    } else if d.year > MIN_YEAR {
        Some(Date { year: (d.year - 1) as i32, month: 12, day: 31 })
    } else {
        None
    }
}

pub open spec fn abs(n: int) -> int {
    if n >= 0 { n } else { -n }
}

/// `d` moved by `n` days, one day at a time; `None` when a step leaves the supported years.
pub open spec fn shift_days(d: Date, n: int) -> Option<Date>
    decreases abs(n),
{
    if n == 0 {
        Some(d)
    } else if n > 0 {
        match next_date(d) {
            Some(e) => shift_days(e, n - 1),
            None => None,
        }
    } else {
        match prev_date(d) {
            Some(e) => shift_days(e, n + 1),
            None => None,
        }
    }
}

/// `shift_days`, where a span longer than the whole supported range fails at once.
pub open spec fn add_days_spec(d: Date, n: int) -> Option<Date> {
    if abs(n) > MAX_DAY_SPAN {
        None
    } else {
        shift_days(d, n)
    }
}

/// The number of days from 0001-01-01 to the first day of year `y`.
pub open spec fn days_before_year(y: int) -> int
    decreases y,
{
    if y <= 1 {
        0
    } else {
        days_before_year(y - 1) + if is_leap(y - 1) { 366int } else { 365int }
    }
}

/// The number of days of year `y` before the first day of month `m`.
pub open spec fn days_before_month(y: int, m: int) -> int
    decreases m,
{
    if m <= 1 {
        0
    } else {
        days_before_month(y, m - 1) + days_in_month(y, m - 1)
    }
}

/// The number of days from 0001-01-01 (a Monday) to `d`.
pub open spec fn day_number(d: Date) -> int {
    days_before_year(d.year as int) + days_before_month(d.year as int, d.month as int) + d.day - 1
}

/// The weekday of `d`: 0 is Monday, 6 is Sunday.
pub open spec fn weekday_of(d: Date) -> int {
    day_number(d) % 7
}

/// `d` moved by `k` months, keeping the day of the month where the new month has it
/// and otherwise taking the new month's last day.
pub open spec fn add_months_spec(d: Date, k: int) -> Option<Date> {
    let t = d.year * 12 + (d.month - 1) + k;
    let y = t / 12;
    let m = t % 12 + 1;
    if y < MIN_YEAR || y > MAX_YEAR {
        None
    } else {
        let last = days_in_month(y, m);
        Some(
            Date {
                year: y as i32,
                month: m as u8,
                day: (if d.day <= last { d.day as int } else { last }) as u8,
            },
        )
    }
}

pub proof fn lemma_next_date(d: Date)
    requires
        d.wf(),
    ensures
        next_date(d) matches Some(e) ==> e.wf() && day_number(e) == day_number(d) + 1,
        next_date(d) is None ==> d == (Date { year: MAX_YEAR, month: 12, day: 31 }),
{
    reveal_with_fuel(days_before_month, 13);
    reveal_with_fuel(days_before_year, 2);
}

pub proof fn lemma_prev_date(d: Date)
    requires
        d.wf(),
    ensures
        prev_date(d) matches Some(e) ==> e.wf() && day_number(e) + 1 == day_number(d),
        prev_date(d) is None ==> d == (Date { year: MIN_YEAR, month: 1, day: 1 }),
{
    reveal_with_fuel(days_before_month, 13);
    reveal_with_fuel(days_before_year, 2);
}

/// Moving by `n` days lands on a valid date whose day number is larger by exactly `n`.
pub proof fn lemma_shift_days(d: Date, n: int)
    requires
        d.wf(),
    ensures
        shift_days(d, n) matches Some(e) ==> e.wf() && day_number(e) == day_number(d) + n,
    decreases abs(n),
{
    if n > 0 {
        lemma_next_date(d);
        if let Some(e) = next_date(d) {
            lemma_shift_days(e, n - 1);
        }
    } else if n < 0 {
        lemma_prev_date(d);
        if let Some(e) = prev_date(d) {
            lemma_shift_days(e, n + 1);
        }
    }
}

/// Up to 31 days forward from a date before the last supported year (or early in
/// its January) stays within the supported years.
pub proof fn lemma_shift_forward_some(d: Date, n: int)
    requires
        d.wf(),
        0 <= n,
        d.year < MAX_YEAR || (d.year == MAX_YEAR && d.month == 1 && d.day + n <= 31),
        n <= 31,
    ensures
        shift_days(d, n) is Some,
    decreases n,
{
    if n > 0 {
        lemma_next_date(d);
        let e = next_date(d).unwrap();
        lemma_shift_forward_some(e, n - 1);
    }
}

/// Up to 31 days back from a date after the first supported year (or late in its
/// December) stays within the supported years.
pub proof fn lemma_shift_backward_some(d: Date, n: int)
    requires
        d.wf(),
        0 <= n <= 31,
        d.year > MIN_YEAR || (d.year == MIN_YEAR && d.month == 12 && d.day > n),
    ensures
        shift_days(d, -n) is Some,
    decreases n,
{
    if n > 0 {
        lemma_prev_date(d);
        let e = prev_date(d).unwrap();
        lemma_shift_backward_some(e, n - 1);
        assert(-n + 1 == -(n - 1));
    }
}

/// Whether `y` is a leap year.
pub fn leap_year(y: i32) -> (r: bool)
    ensures
        r == is_leap(y as int),
{
    y % 4 == 0 && (y % 100 != 0 || y % 400 == 0)
}

/// The number of days of month `m` in year `y`.
pub fn month_length(y: i32, m: u8) -> (r: u8)
    ensures
        r as int == days_in_month(y as int, m as int),
{
    if m == 2 {
        if leap_year(y) { 29 } else { 28 }
    } else if m == 4 || m == 6 || m == 9 || m == 11 {
        30
    } else {
        31
    }
}

/// The day after `d`.
pub fn next_day(d: Date) -> (r: Option<Date>)
    requires
        d.wf(),
    ensures
        r == next_date(d),
{
    if d.day < month_length(d.year, d.month) {
        Some(Date { year: d.year, month: d.month, day: d.day + 1 })
    } else if d.month < 12 {
        Some(Date { year: d.year, month: d.month + 1, day: 1 })
    } else if d.year < MAX_YEAR {
        Some(Date { year: d.year + 1, month: 1, day: 1 })
    } else {
        None
    }
}

/// The day before `d`.
pub fn prev_day(d: Date) -> (r: Option<Date>)
    requires
        d.wf(),
    ensures
        r == prev_date(d),
{
    if d.day > 1 {
        Some(Date { year: d.year, month: d.month, day: d.day - 1 })
    } else if d.month > 1 {
        Some(Date { year: d.year, month: d.month - 1, day: month_length(d.year, d.month - 1) })
    } else if d.year > MIN_YEAR {
        Some(Date { year: d.year - 1, month: 12, day: 31 })
    } else {
        None
    }
}

/// `d` moved by `n` days (backwards when `n` is negative).
pub fn add_days(d: Date, n: i64) -> (r: Option<Date>)
    requires
        d.wf(),
    ensures
        r == add_days_spec(d, n as int),
        r matches Some(e) ==> e.wf() && day_number(e) == day_number(d) + n,
{
    if n > MAX_DAY_SPAN || n < -MAX_DAY_SPAN {
        return None;
    }
    proof {
        lemma_shift_days(d, n as int);
    }
    let mut cur = d;
    let mut k: i64 = n;
    while k != 0
        invariant
            cur.wf(),
            -MAX_DAY_SPAN <= k <= MAX_DAY_SPAN,
            shift_days(cur, k as int) == shift_days(d, n as int),
        decreases abs(k as int),
    {
        if k > 0 {
            match next_day(cur) {
                Some(e) => {
                    proof {
                        lemma_next_date(cur);
                    }
                    cur = e;
                    k = k - 1;
                },
                None => {
                    return None;
                },
            }
        } else {
            match prev_day(cur) {
                Some(e) => {
                    proof {
                        lemma_prev_date(cur);
                    }
                    cur = e;
                    k = k + 1;
                },
                None => {
                    return None;
                },
            }
        }
    }
    Some(cur)
}

/// The number of days from 0001-01-01 to `d`.
pub fn day_number_of(d: Date) -> (r: i64)
    requires
        d.wf(),
    ensures
        r == day_number(d),
        r >= 0,
{
    let mut acc: i64 = 0;
    let mut y: i32 = 1;
    while y < d.year
        invariant
            1 <= y <= d.year,
            d.wf(),
            acc == days_before_year(y as int),
            0 <= acc <= 366 * (y - 1),
        decreases d.year - y,
    {
        acc = acc + if leap_year(y) { 366 } else { 365 };
        y = y + 1;
    }
    let mut m: u8 = 1;
    while m < d.month
        invariant
            1 <= m <= d.month,
            d.wf(),
            y == d.year,
            acc >= 0,
            acc <= 366 * (d.year - 1) + 31 * (m - 1),
            acc == days_before_year(d.year as int) + days_before_month(d.year as int, m as int),
        decreases d.month - m,
    {
        acc = acc + month_length(d.year, m) as i64;
        m = m + 1;
    }
    acc + d.day as i64 - 1
}

/// The weekday of `d`: 0 is Monday, 6 is Sunday.
pub fn weekday(d: Date) -> (r: u8)
    requires
        d.wf(),
    ensures
        r as int == weekday_of(d),
        r < 7,
{
    (day_number_of(d) % 7) as u8
}

/// `d` moved by `k` months, with the day clamped to the new month's length.
pub fn add_months(d: Date, k: i64) -> (r: Option<Date>)
    requires
        d.wf(),
        -1_000_000_000_000_000 <= k <= 1_000_000_000_000_000,
    ensures
        r == add_months_spec(d, k as int),
        r matches Some(e) ==> e.wf(),
{
    let t: i64 = d.year as i64 * 12 + (d.month as i64 - 1) + k;
    if t < 12 * (MIN_YEAR as i64) || t >= 12 * (MAX_YEAR as i64 + 1) {
        return None;
    }
    let y: i32 = (t / 12) as i32;
    let m: u8 = (t % 12 + 1) as u8;
    let last = month_length(y, m);
    let day = if d.day <= last { d.day } else { last };
    Some(Date { year: y, month: m, day })
}

} // verus!
