//! Calendar arithmetic on days counted from 1970-01-01 (proleptic Gregorian calendar, UTC).
use vstd::prelude::*;

verus! {

/// A day of the Gregorian calendar.
#[derive(Debug, Clone, Copy, PartialEq, Eq, Structural)]
pub struct CalendarDate {
    pub year: i64,
    pub month: u32,
    pub day: u32,
}

pub open spec fn is_leap_year(year: int) -> bool {
    (year % 4 == 0 && year % 100 != 0) || year % 400 == 0
}

pub open spec fn days_in_year(year: int) -> int {
    if is_leap_year(year) {
        366
    } else {
        365
    }
}

pub open spec fn days_in_month(year: int, month: int) -> int {
    if month == 2 {
        if is_leap_year(year) {
            29
        } else {
            28
        }
    } else if month == 4 || month == 6 || month == 9 || month == 11 {
        30
    } else {
        31
    }
}

/// Leap years among the years `1..=year`, for `year >= 0`.
pub open spec fn leap_years_through(year: int) -> int {
    year / 4 - year / 100 + year / 400
}

/// Days from 1970-01-01 to the first day of `year`, for `year >= 1970`.
pub open spec fn days_before_year(year: int) -> int {
    365 * (year - 1970) + leap_years_through(year - 1) - leap_years_through(1969)
}

/// Days in the months of `year` that come before `month`.
pub open spec fn days_before_month(year: int, month: int) -> int {
    (if month <= 1 {
        0int
    } else if month == 2 {
        31
    } else if month == 3 {
        59
    } else if month == 4 {
        90
    } else if month == 5 {
        120
    } else if month == 6 {
        151
    } else if month == 7 {
        181
    } else if month == 8 {
        212
    } else if month == 9 {
        243
    } else if month == 10 {
        273
    } else if month == 11 {
        304
    } else {
        334
    }) + if month > 2 && is_leap_year(year) {
        1int
    } else {
        0
    }
}

/// `date` is a valid date and it is `epoch_day` days after 1970-01-01.
pub open spec fn is_date_of(date: CalendarDate, epoch_day: int) -> bool {
    &&& date.year >= 1970
    &&& 1 <= date.month <= 12
    &&& 1 <= date.day <= days_in_month(date.year as int, date.month as int)
    &&& days_before_year(date.year as int) + days_before_month(date.year as int, date.month as int)
        + date.day - 1 == epoch_day
}

/// The calendar date of a day count (unique, see `lemma_date_unique`).
pub open spec fn date_of(epoch_day: int) -> CalendarDate {
    choose|d: CalendarDate| is_date_of(d, epoch_day)
}

/// The Monday that starts the week of `day`, never before day 0.
pub open spec fn week_start_spec(day: int) -> int {
    if day >= (day + 3) % 7 {
        day - (day + 3) % 7
    } else {
        0
    }
}

pub proof fn lemma_year_step(year: int)
    requires
        year >= 1,
    ensures
        days_before_year(year + 1) == days_before_year(year) + days_in_year(year),
{
    let y = year;
    assert(y / 4 - (y - 1) / 4 == (if y % 4 == 0 { 1int } else { 0 }));
    assert(y / 100 - (y - 1) / 100 == (if y % 100 == 0 { 1int } else { 0 }));
    assert(y / 400 - (y - 1) / 400 == (if y % 400 == 0 { 1int } else { 0 }));
    assert(y % 400 == 0 ==> y % 100 == 0);
    assert(y % 100 == 0 ==> y % 4 == 0);
}

pub proof fn lemma_cycle(cycles: int)
    requires
        cycles >= 0,
    ensures
        days_before_year(1970 + 400 * cycles) == 146097 * cycles,
{
    let x = 1969int;
    assert((x + 400 * cycles) / 4 == x / 4 + 100 * cycles);
    assert((x + 400 * cycles) / 100 == x / 100 + 4 * cycles);
    assert((x + 400 * cycles) / 400 == x / 400 + cycles);
}

pub proof fn lemma_days_before_month_step(year: int, month: int)
    requires
        1 <= month <= 11,
    ensures
        days_before_month(year, month + 1) == days_before_month(year, month) + days_in_month(
            year,
            month,
        ),
{
}

pub proof fn lemma_days_before_year_monotonic(a: int, b: int)
    requires
        1970 <= a <= b,
    ensures
        days_before_year(a) + 365 * (b - a) <= days_before_year(b),
    decreases b - a,
{
    if a < b {
        lemma_days_before_year_monotonic(a, b - 1);
        lemma_year_step(b - 1);
    }
}

/// Within a valid date, the day of the year is below the length of the year.
proof fn lemma_day_of_year_bound(d: CalendarDate)
    requires
        1 <= d.month <= 12,
        1 <= d.day <= days_in_month(d.year as int, d.month as int),
    ensures
        0 <= days_before_month(d.year as int, d.month as int) + d.day - 1 < days_in_year(
            d.year as int,
        ),
{
}

/// Two dates of the same day count are the same date.
pub proof fn lemma_date_unique(a: CalendarDate, b: CalendarDate, epoch_day: int)
    requires
        is_date_of(a, epoch_day),
        is_date_of(b, epoch_day),
    ensures
        a == b,
{
    lemma_day_of_year_bound(a);
    lemma_day_of_year_bound(b);
    if a.year < b.year {
        lemma_days_before_year_monotonic(a.year + 1, b.year as int);
        lemma_year_step(a.year as int);
    } else if b.year < a.year {
        lemma_days_before_year_monotonic(b.year + 1, a.year as int);
        lemma_year_step(b.year as int);
    }
    assert(a.year == b.year);
    if a.month < b.month {
        lemma_month_order(a.year as int, a.month as int, b.month as int);
    } else if b.month < a.month {
        lemma_month_order(a.year as int, b.month as int, a.month as int);
    }
}

proof fn lemma_month_order(year: int, m1: int, m2: int)
    requires
        1 <= m1 < m2 <= 12,
    ensures
        days_before_month(year, m1) + days_in_month(year, m1) <= days_before_month(year, m2),
{
}

fn is_leap(year: i64) -> (r: bool)
    ensures
        r == is_leap_year(year as int),
{
    (year % 4 == 0 && year % 100 != 0) || year % 400 == 0
}

fn year_length(year: i64) -> (r: u64)
    ensures
        r == days_in_year(year as int),
{
    if is_leap(year) {
        366
    } else {
        365
    }
}

fn month_length(year: i64, month: u32) -> (r: u64)
    ensures
        r == days_in_month(year as int, month as int),
{
    if month == 2 {
        if is_leap(year) {
            29
        } else {
            28
        }
    } else if month == 4 || month == 6 || month == 9 || month == 11 {
        30
    } else {
        31
    }
}

/// The calendar date of the day `epoch_day` days after 1970-01-01.
pub fn calendar_date(epoch_day: u64) -> (date: CalendarDate)
    ensures
        is_date_of(date, epoch_day as int),
        date == date_of(epoch_day as int),
{
    let cycles = epoch_day / 146097;
    let mut rest = epoch_day % 146097;
    let ghost first_year = 1970 + 400 * cycles as int;
    let mut year: i64 = 1970 + 400 * (cycles as i64);
    proof {
        lemma_cycle(cycles as int);
    }
    while rest >= year_length(year)
        invariant
            year >= first_year,
            first_year >= 1970,
            first_year <= 1970 + 400 * (u64::MAX / 146097),
            days_before_year(year as int) + rest == epoch_day,
            days_before_year(first_year) == 146097 * cycles,
            days_before_year(year as int) - days_before_year(first_year) + rest < 146097,
        decreases rest,
    {
        proof {
            lemma_year_step(year as int);
            lemma_days_before_year_monotonic(first_year, year as int);
        }
        rest = rest - year_length(year);
        year = year + 1;
    }
    let mut month: u32 = 1;
    while rest >= month_length(year, month)
        invariant
            year >= 1970,
            1 <= month <= 12,
            days_before_year(year as int) + days_before_month(year as int, month as int) + rest
                == epoch_day,
            days_before_month(year as int, month as int) + rest < days_in_year(year as int),
        decreases rest,
    {
        proof {
            if month < 12 {
                lemma_days_before_month_step(year as int, month as int);
            }
        }
        rest = rest - month_length(year, month);
        month = month + 1;
    }
    let date = CalendarDate { year, month, day: (rest + 1) as u32 };
    proof {
        assert(is_date_of(date, epoch_day as int));
        lemma_date_unique(date, date_of(epoch_day as int), epoch_day as int);
    }
    date
}

/// The first day (a Monday) of the week that holds `day`, clamped at day 0.
pub fn week_start(day: u64) -> (start: u64)
    requires
        day <= u64::MAX - 3,
    ensures
        start == week_start_spec(day as int),
        day >= 4 ==> start <= day < start + 7 && (start + 3) % 7 == 0,
{
    let offset = (day + 3) % 7;
    if day >= offset {
        day - offset
    } else {
        0
    }
}

} // verus!
