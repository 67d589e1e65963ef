//! Civil (wall-clock) time: splitting a count of seconds into Gregorian
//! calendar fields.
//!
//! A local time is a count of seconds since 1970-01-01T00:00:00; it may be
//! slightly negative, since a timezone west of Greenwich renders the first
//! instants of 1970 as late 1969. Day numbering inside this module therefore
//! starts at 1969-01-01 (a Wednesday), which keeps every intermediate
//! quantity non-negative.

use vstd::prelude::*;

verus! {

/// Seconds from 1969-01-01 to 1970-01-01 (1969 is not a leap year).
pub const YEAR_SHIFT_SECS: i64 = 31536000;

/// Lowest local time the calendar functions accept: two days before 1970.
pub const MIN_LOCAL: i64 = -172800;

/// Highest local time the calendar functions accept; far above any instant
/// plus the largest timezone offset and search horizon.
pub const MAX_LOCAL: i64 = 4294967296;

/// The local time shifted so that second 0 falls on 1969-01-01.
pub open spec fn shifted(t: int) -> int {
    t + YEAR_SHIFT_SECS
}

/// Days since 1969-01-01 of the day containing local time `t`.
pub open spec fn day_index(t: int) -> int {
    shifted(t) / 86400
}

/// Seconds elapsed since midnight of the day containing `t`.
pub open spec fn sec_of_day(t: int) -> int {
    shifted(t) % 86400
}

pub open spec fn c_hour(t: int) -> int {
    sec_of_day(t) / 3600
}

pub open spec fn c_minute(t: int) -> int {
    (sec_of_day(t) / 60) % 60
}

pub open spec fn c_second(t: int) -> int {
    sec_of_day(t) % 60
}

/// Day of week, 0 = Sunday; 1969-01-01 was a Wednesday (3).
pub open spec fn c_weekday(t: int) -> int {
    (day_index(t) + 3) % 7
}

pub open spec fn is_leap(y: int) -> bool {
    y % 4 == 0 && (y % 100 != 0 || y % 400 == 0)
}

pub open spec fn days_in_year(y: int) -> int {
    if is_leap(y) {
        366
    } else {
        365
    }
}

/// Length of month `m` of year `y`; months past December never arise from a
/// valid day-of-year and default to 31 only to keep the function total.
pub open spec fn days_in_month(y: int, m: int) -> int {
    if m == 2 {
        if is_leap(y) {
            29
        } else {
            28
        }
    } else if m == 4 || m == 6 || m == 9 || m == 11 {
        30
    } else {
        31
    }
}

/// Walks year by year from `y`, consuming `rem` days; yields the year that
/// contains the day, paired with the remaining day-of-year (0-based).
pub open spec fn ymd_year(y: int, rem: int) -> (int, int)
    decreases rem,
{
    if rem < days_in_year(y) {
        (y, rem)
    } else {
        ymd_year(y + 1, rem - days_in_year(y))
    }
}

/// Walks month by month from `m`, consuming `rem` days of the year; yields
/// the month and the day of month (1-based).
pub open spec fn ymd_month(y: int, m: int, rem: int) -> (int, int)
    decreases rem,
{
    if rem < days_in_month(y, m) {
        (m, rem + 1)
    } else {
        ymd_month(y, m + 1, rem - days_in_month(y, m))
    }
}

pub open spec fn c_year(t: int) -> int {
    ymd_year(1969, day_index(t)).0
}

pub open spec fn c_day_of_year(t: int) -> int {
    ymd_year(1969, day_index(t)).1
}

pub open spec fn c_month(t: int) -> int {
    ymd_month(c_year(t), 1, c_day_of_year(t)).0
}

pub open spec fn c_day(t: int) -> int {
    ymd_month(c_year(t), 1, c_day_of_year(t)).1
}

/// Days from the start of month `m` to the end of year `y` (zero past
/// December).
pub open spec fn rest_of_year(y: int, m: int) -> int
    decreases 13 - m,
{
    if m < 1 || m > 12 {
        0
    } else {
        days_in_month(y, m) + rest_of_year(y, m + 1)
    }
}

pub proof fn lemma_rest_of_year_full(y: int)
    ensures
        rest_of_year(y, 1) == days_in_year(y),
{
    reveal_with_fuel(rest_of_year, 13);
}

pub proof fn lemma_ymd_year_bounds(y: int, rem: int)
    requires
        0 <= rem,
    ensures
        ymd_year(y, rem).0 >= y,
        0 <= ymd_year(y, rem).1 < days_in_year(ymd_year(y, rem).0),
    decreases rem,
{
    if rem >= days_in_year(y) {
        lemma_ymd_year_bounds(y + 1, rem - days_in_year(y));
    }
}

pub proof fn lemma_ymd_month_min(y: int, m: int, rem: int)
    ensures
        ymd_month(y, m, rem).0 >= m,
    decreases rem,
{
    if rem >= days_in_month(y, m) {
        lemma_ymd_month_min(y, m + 1, rem - days_in_month(y, m));
    }
}

pub proof fn lemma_ymd_month_bounds(y: int, m: int, rem: int)
    requires
        1 <= m <= 12,
        0 <= rem < rest_of_year(y, m),
    ensures
        m <= ymd_month(y, m, rem).0 <= 12,
        1 <= ymd_month(y, m, rem).1 <= days_in_month(y, ymd_month(y, m, rem).0),
    decreases 12 - m,
{
    if rem >= days_in_month(y, m) {
        assert(rest_of_year(y, m) == days_in_month(y, m) + rest_of_year(y, m + 1));
        lemma_ymd_month_bounds(y, m + 1, rem - days_in_month(y, m));
    }
}

/// Every calendar field of an in-range local time lies in its usual range.
pub proof fn lemma_civil_ranges(t: int)
    requires
        MIN_LOCAL <= t <= MAX_LOCAL,
    ensures
        0 <= c_second(t) < 60,
        0 <= c_minute(t) < 60,
        0 <= c_hour(t) < 24,
        1 <= c_day(t) <= 31,
        1 <= c_month(t) <= 12,
        0 <= c_weekday(t) < 7,
        c_year(t) >= 1969,
{
    assert(0 <= sec_of_day(t) < 86400);
    assert(0 <= day_index(t));
    lemma_ymd_year_bounds(1969, day_index(t));
    lemma_rest_of_year_full(c_year(t));
    lemma_ymd_month_bounds(c_year(t), 1, c_day_of_year(t));
    assert(days_in_month(c_year(t), c_month(t)) <= 31);
}

/// The split of a local time into calendar fields, as the scheduler and the
/// cron matcher read it.
pub struct Civil {
    pub year: i64,
    pub month: u8,
    pub day: u8,
    pub hour: u8,
    pub minute: u8,
    pub second: u8,
    /// 0 = Sunday ... 6 = Saturday.
    pub weekday: u8,
}

fn days_in_year_exec(y: u64) -> (n: u64)
    ensures
        n == days_in_year(y as int),
{
    if y % 4 == 0 && (y % 100 != 0 || y % 400 == 0) {
        366
    } else {
        365
    }
}

fn days_in_month_exec(y: u64, m: u64) -> (n: u64)
    ensures
        n == days_in_month(y as int, m as int),
{
    if m == 2 {
        if y % 4 == 0 && (y % 100 != 0 || y % 400 == 0) {
            29
        } else {
            28
        }
    } else if m == 4 || m == 6 || m == 9 || m == 11 {
        30
    } else {
        31
    }
}

/// The time-of-day and weekday fields alone: hour, minute, second,
/// weekday. These need no calendar walk, so a matcher can reject on them
/// cheaply before computing the date.
pub fn clock_of(t: i64) -> (c: (u8, u8, u8, u8))
    requires
        MIN_LOCAL <= t <= MAX_LOCAL,
    ensures
        c.0 as int == c_hour(t as int),
        c.1 as int == c_minute(t as int),
        c.2 as int == c_second(t as int),
        c.3 as int == c_weekday(t as int),
        c.0 < 24,
        c.1 < 60,
        c.2 < 60,
        c.3 < 7,
{
    let u: u64 = (t + YEAR_SHIFT_SECS) as u64;
    let day: u64 = u / 86400;
    let sod: u64 = u % 86400;
    ((sod / 3600) as u8, ((sod / 60) % 60) as u8, (sod % 60) as u8, ((day + 3) % 7) as u8)
}

/// Renders a local time as its Gregorian calendar fields.
pub fn civil_of(t: i64) -> (c: Civil)
    requires
        MIN_LOCAL <= t <= MAX_LOCAL,
    ensures
        c.year as int == c_year(t as int),
        c.month as int == c_month(t as int),
        c.day as int == c_day(t as int),
        c.hour as int == c_hour(t as int),
        c.minute as int == c_minute(t as int),
        c.second as int == c_second(t as int),
        c.weekday as int == c_weekday(t as int),
        1 <= c.month <= 12,
        1 <= c.day <= 31,
        c.hour < 24,
        c.minute < 60,
        c.second < 60,
        c.weekday < 7,
        c.year >= 1969,
{
    let u: u64 = (t + YEAR_SHIFT_SECS) as u64;
    let day: u64 = u / 86400;
    let sod: u64 = u % 86400;
    let hour: u64 = sod / 3600;
    let minute: u64 = (sod / 60) % 60;
    let second: u64 = sod % 60;
    let weekday: u64 = (day + 3) % 7;
    proof {
        lemma_civil_ranges(t as int);
        lemma_ymd_year_bounds(1969, day_index(t as int));
    }
    let mut y: u64 = 1969;
    let mut rem: u64 = day;
    while rem >= days_in_year_exec(y)
        invariant
            1969 <= y,
            y + rem <= 1969 + day,
            rem <= day,
            day <= MAX_LOCAL,
            ymd_year(1969, day as int) == ymd_year(y as int, rem as int),
        decreases rem,
    {
        rem = rem - days_in_year_exec(y);
        y = y + 1;
    }
    proof {
        lemma_rest_of_year_full(y as int);
        lemma_ymd_month_bounds(y as int, 1, rem as int);
    }
    let mut m: u64 = 1;
    let mut d: u64 = rem;
    while d >= days_in_month_exec(y, m)
        invariant
            1 <= m <= 13,
            d <= rem,
            rem < 366,
            ymd_month(y as int, 1, rem as int) == ymd_month(y as int, m as int, d as int),
            ymd_month(y as int, m as int, d as int).0 <= 12,
            ymd_month(y as int, m as int, d as int).1 <= 31,
        decreases d,
    {
        d = d - days_in_month_exec(y, m);
        m = m + 1;
        proof {
            lemma_ymd_month_min(y as int, m as int, d as int);
        }
    }
    Civil {
        year: y as i64,
        month: m as u8,
        day: (d + 1) as u8,
        hour: hour as u8,
        minute: minute as u8,
        second: second as u8,
        weekday: weekday as u8,
    }
}

} // verus!
