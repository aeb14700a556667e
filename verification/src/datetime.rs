//! A proleptic-Gregorian calendar date-time as plain integer fields, with
//! the arithmetic the conversion pipeline needs: day numbering, shifting by
//! a whole number of minutes, and minute-granularity differences.

use vstd::prelude::*;

verus! {

/// A naive (zone-less) date-time. Fields are plain integers; `valid` bounds
/// them to real calendar values with years 0 through 9999.
#[derive(Clone, Copy, Debug, PartialEq, Eq, Structural)]
pub struct DateTime {
    pub year: u32,
    pub month: u32,
    pub day: u32,
    pub hour: u32,
    pub minute: u32,
    pub second: u32,
}

pub open spec fn is_leap_year(y: int) -> bool {
    (y % 4 == 0 && y % 100 != 0) || y % 400 == 0
}

pub open spec fn days_in_month(y: int, m: int) -> int {
    if m == 2 {
        if is_leap_year(y) {
            29
        } else {
            28
        }
    } else if m == 4 || m == 6 || m == 9 || m == 11 {
        30
    } else {
        31
    }
}

/// Days in year `y` that precede the first day of month `m`.
pub open spec fn days_before_month(y: int, m: int) -> int
    decreases m,
{
    if m <= 1 {
        0
    } else {
        days_before_month(y, m - 1) + days_in_month(y, m - 1)
    }
}

pub open spec fn days_in_year(y: int) -> int {
    days_before_month(y, 13)
}

/// Days that precede the first day of year `y`, counting from year 0.
pub open spec fn days_before_year(y: nat) -> int
    decreases y,
{
    if y == 0 {
        0
    } else {
        days_before_year((y - 1) as nat) + days_in_year(y - 1)
    }
}

impl DateTime {
    pub open spec fn valid(self) -> bool {
        self.year <= 9999 && 1 <= self.month <= 12 && 1 <= self.day && self.day
            <= days_in_month(self.year as int, self.month as int) && self.hour <= 23
            && self.minute <= 59 && self.second <= 59
    }

    /// The number of days from 0000-01-01 to this date.
    pub open spec fn day_number(self) -> int {
        days_before_year(self.year as nat) + days_before_month(self.year as int, self.month as int)
            + self.day - 1
    }

    /// Minutes from 0000-01-01 00:00 to this date-time, ignoring seconds.
    pub open spec fn minutes_of(self) -> int {
        self.day_number() * 1440 + self.hour * 60 + self.minute
    }

    /// Seconds from 0000-01-01 00:00:00 to this date-time.
    pub open spec fn seconds_of(self) -> int {
        self.minutes_of() * 60 + self.second
    }
}

/// Total minutes in the representable range: years 0 through 9999.
pub open spec fn minutes_range_end() -> int {
    days_before_year(10000) * 1440
}

pub proof fn lemma_days_in_year(y: int)
    ensures
        days_in_year(y) == if is_leap_year(y) {
            366int
        } else {
            365int
        },
{
    reveal_with_fuel(days_before_month, 14);
}

pub proof fn lemma_days_before_month_bounds(y: int, m: int)
    requires
        1 <= m <= 13,
    ensures
        28 * (m - 1) <= days_before_month(y, m) <= 31 * (m - 1),
    decreases m,
{
    if m > 1 {
        lemma_days_before_month_bounds(y, m - 1);
    }
}

pub proof fn lemma_days_before_year_bounds(y: nat)
    ensures
        365 * y <= days_before_year(y) <= 366 * y,
    decreases y,
{
    if y > 0 {
        lemma_days_before_year_bounds((y - 1) as nat);
        lemma_days_in_year(y - 1);
    }
}

/// A valid date-time lies inside the representable minute range.
pub proof fn lemma_minutes_in_range(dt: DateTime)
    requires
        dt.valid(),
    ensures
        0 <= dt.minutes_of(),
        dt.minutes_of() < minutes_range_end(),
        0 <= dt.day_number() < days_before_year(10000),
{
    lemma_days_before_year_bounds(dt.year as nat);
    lemma_days_before_year_bounds(10000);
    lemma_days_before_month_bounds(dt.year as int, dt.month as int);
    assert(days_before_year(10000) == days_before_year(dt.year as nat) + (days_before_year(10000)
        - days_before_year(dt.year as nat)));
    lemma_days_after_year(dt.year as nat);
    lemma_days_in_year(dt.year as int);
    lemma_days_before_month_13(dt.year as int, dt.month as int);
}

/// Every later year adds at least 365 days.
proof fn lemma_days_after_year(y: nat)
    requires
        y <= 9999,
    ensures
        days_before_year(10000) >= days_before_year(y) + 365 * (10000 - y),
    decreases 10000 - y,
{
    if y < 10000 {
        if y == 9999 {
            lemma_days_in_year(y as int);
        } else {
            lemma_days_after_year((y + 1) as nat);
            lemma_days_in_year(y as int);
        }
    }
}

/// The days of month `m` lie before `days_before_month(y, 13)`.
proof fn lemma_days_before_month_13(y: int, m: int)
    requires
        1 <= m <= 12,
    ensures
        days_before_month(y, m) + days_in_month(y, m) <= days_in_year(y),
    decreases 13 - m,
{
    if m == 12 {
        assert(days_in_year(y) == days_before_month(y, 13));
    } else {
        lemma_days_before_month_13(y, m + 1);
        lemma_days_before_month_bounds(y, m + 1);
    }
}

/// Later years have later day numbers, by at least 365 days a year.
pub proof fn lemma_days_before_year_mono(a: nat, b: nat)
    requires
        a <= b,
    ensures
        days_before_year(a) + 365 * (b - a) <= days_before_year(b),
    decreases b,
{
    if a < b {
        lemma_days_before_year_mono(a, (b - 1) as nat);
        lemma_days_in_year(b - 1);
    }
}

/// Later months have later day numbers within a year.
pub proof fn lemma_days_before_month_mono(y: int, a: int, b: int)
    requires
        1 <= a <= b <= 13,
    ensures
        days_before_month(y, a) + 28 * (b - a) <= days_before_month(y, b),
    decreases b,
{
    if a < b {
        lemma_days_before_month_mono(y, a, b - 1);
    }
}

/// A date in an earlier year has a smaller day number.
proof fn lemma_day_number_year_lt(d1: DateTime, d2: DateTime)
    requires
        d1.valid(),
        d2.valid(),
        d1.year < d2.year,
    ensures
        d1.day_number() < d2.day_number(),
{
    lemma_days_before_month_13(d1.year as int, d1.month as int);
    assert(days_before_year((d1.year + 1) as nat) == days_before_year(d1.year as nat)
        + days_in_year(d1.year as int));
    lemma_days_before_year_mono((d1.year + 1) as nat, d2.year as nat);
    lemma_days_before_month_bounds(d2.year as int, d2.month as int);
}

/// A date in an earlier month of the same year has a smaller day number.
proof fn lemma_day_number_month_lt(d1: DateTime, d2: DateTime)
    requires
        d1.valid(),
        d2.valid(),
        d1.year == d2.year,
        d1.month < d2.month,
    ensures
        d1.day_number() < d2.day_number(),
{
    let y = d1.year as int;
    assert(days_before_month(y, d1.month + 1) == days_before_month(y, d1.month as int)
        + days_in_month(y, d1.month as int));
    lemma_days_before_month_mono(y, d1.month + 1, d2.month as int);
}

/// The day number determines the date.
pub proof fn lemma_day_number_injective(d1: DateTime, d2: DateTime)
    requires
        d1.valid(),
        d2.valid(),
        d1.day_number() == d2.day_number(),
    ensures
        d1.year == d2.year,
        d1.month == d2.month,
        d1.day == d2.day,
{
    if d1.year < d2.year {
        lemma_day_number_year_lt(d1, d2);
    } else if d2.year < d1.year {
        lemma_day_number_year_lt(d2, d1);
    }
    if d1.month < d2.month {
        lemma_day_number_month_lt(d1, d2);
    } else if d2.month < d1.month {
        lemma_day_number_month_lt(d2, d1);
    }
}

/// The minute count determines every field but the seconds.
pub proof fn lemma_minutes_injective(d1: DateTime, d2: DateTime)
    requires
        d1.valid(),
        d2.valid(),
        d1.minutes_of() == d2.minutes_of(),
    ensures
        d1.year == d2.year,
        d1.month == d2.month,
        d1.day == d2.day,
        d1.hour == d2.hour,
        d1.minute == d2.minute,
{
    assert(d1.day_number() == d2.day_number());
    lemma_day_number_injective(d1, d2);
}

pub fn is_leap_year_exec(y: u32) -> (r: bool)
    ensures
        r == is_leap_year(y as int),
{
    (y % 4 == 0 && y % 100 != 0) || y % 400 == 0
}

pub fn days_in_month_exec(y: u32, m: u32) -> (r: u32)
    ensures
        r == days_in_month(y as int, m as int),
{
    if m == 2 {
        if is_leap_year_exec(y) {
            29
        } else {
            28
        }
    } else if m == 4 || m == 6 || m == 9 || m == 11 {
        30
    } else {
        31
    }
}

pub fn days_in_year_exec(y: u32) -> (r: u32)
    ensures
        r == days_in_year(y as int),
{
    proof {
        lemma_days_in_year(y as int);
    }
    if is_leap_year_exec(y) {
        366
    } else {
        365
    }
}

/// Days that precede the first day of year `y`.
pub fn days_before_year_exec(y: u32) -> (r: u64)
    requires
        y <= 10000,
    ensures
        r == days_before_year(y as nat),
        r <= 3_660_000,
{
    let mut i: u32 = 0;
    let mut acc: u64 = 0;
    while i < y
        invariant
            i <= y <= 10000,
            acc == days_before_year(i as nat),
            acc <= 366 * (i as u64),
        decreases y - i,
    {
        proof {
            lemma_days_in_year(i as int);
        }
        acc = acc + days_in_year_exec(i) as u64;
        i = i + 1;
    }
    acc
}

/// Days in year `y` that precede the first day of month `m`.
pub fn days_before_month_exec(y: u32, m: u32) -> (r: u32)
    requires
        1 <= m <= 13,
    ensures
        r == days_before_month(y as int, m as int),
        r <= 372,
{
    let mut i: u32 = 1;
    let mut acc: u32 = 0;
    while i < m
        invariant
            1 <= i <= m <= 13,
            acc == days_before_month(y as int, i as int),
            acc <= 31 * (i - 1),
        decreases m - i,
    {
        acc = acc + days_in_month_exec(y, i);
        i = i + 1;
    }
    acc
}

pub fn day_number_exec(dt: &DateTime) -> (r: u64)
    requires
        dt.valid(),
    ensures
        r == dt.day_number(),
        r <= 3_660_500,
{
    let before_year = days_before_year_exec(dt.year);
    let before_month = days_before_month_exec(dt.year, dt.month);
    before_year + before_month as u64 + (dt.day - 1) as u64
}

pub fn seconds_of_exec(dt: &DateTime) -> (r: u64)
    requires
        dt.valid(),
    ensures
        r == dt.seconds_of(),
        r < 320_000_000_000,
{
    let days = day_number_exec(dt);
    days * 86400 + (dt.hour as u64) * 3600 + (dt.minute as u64) * 60 + dt.second as u64
}

/// The date whose day number is `n`, found by scanning years and months.
pub fn date_from_day_number(n: u64) -> (r: (u32, u32, u32))
    requires
        n < days_before_year(10000),
    ensures
        ({
            let (y, m, d) = r;
            y <= 9999 && 1 <= m <= 12 && 1 <= d && d <= days_in_month(y as int, m as int)
                && days_before_year(y as nat) + days_before_month(y as int, m as int) + d - 1 == n
        }),
{
    proof {
        lemma_days_before_year_bounds(10000);
    }
    let mut y: u32 = 0;
    let mut acc: u64 = 0;
    loop
        invariant
            y <= 9999,
            acc == days_before_year(y as nat),
            acc <= n < days_before_year(10000),
            n <= 3_660_000,
        ensures
            y <= 9999,
            acc == days_before_year(y as nat),
            acc <= n,
            n - acc < days_in_year(y as int),
        decreases 10000 - y,
    {
        proof {
            lemma_days_in_year(y as int);
        }
        let diy = days_in_year_exec(y) as u64;
        if acc + diy <= n {
            proof {
                if y == 9999 {
                    assert(days_before_year(10000) == days_before_year(9999) + days_in_year(9999));
                }
            }
            acc = acc + diy;
            y = y + 1;
        } else {
            break;
        }
    }
    let rem_days = (n - acc) as u32;
    proof {
        lemma_days_in_year(y as int);
    }
    let mut m: u32 = 1;
    let mut macc: u32 = 0;
    while m < 12
        invariant
            1 <= m <= 12,
            macc == days_before_month(y as int, m as int),
            macc <= rem_days,
            rem_days < days_in_year(y as int),
            rem_days <= 366,
            y <= 9999,
            acc + rem_days == n,
            acc == days_before_year(y as nat),
        ensures
            1 <= m <= 12,
            macc == days_before_month(y as int, m as int),
            macc <= rem_days,
            rem_days < macc + days_in_month(y as int, m as int),
        decreases 12 - m,
    {
        let dim = days_in_month_exec(y, m);
        if rem_days < macc + dim {
            break;
        }
        macc = macc + dim;
        m = m + 1;
    }
    let d = rem_days - macc + 1;
    (y, m, d)
}

/// Shifts a date-time by `delta` whole minutes, keeping the seconds field.
/// Returns `None` exactly when the result would fall outside years 0-9999.
pub fn shift_minutes(dt: &DateTime, delta: i64) -> (r: Option<DateTime>)
    requires
        dt.valid(),
        -2880 < delta < 2880,
    ensures
        match r {
            Some(d2) => d2.valid() && d2.minutes_of() == dt.minutes_of() + delta && d2.second
                == dt.second && 0 <= dt.minutes_of() + delta < minutes_range_end(),
            None => !(0 <= dt.minutes_of() + delta < minutes_range_end()),
        },
{
    proof {
        lemma_minutes_in_range(*dt);
        lemma_days_before_year_bounds(10000);
    }
    let days = day_number_exec(dt);
    let total: u64 = days * 1440 + (dt.hour as u64) * 60 + dt.minute as u64;
    let range_end: u64 = days_before_year_exec(10000) * 1440;
    let shifted: i64 = total as i64 + delta;
    if shifted < 0 || shifted >= range_end as i64 {
        return None;
    }
    let target = shifted as u64;
    let day_n = target / 1440;
    let rem = target % 1440;
    let (y, m, d) = date_from_day_number(day_n);
    let out = DateTime {
        year: y,
        month: m,
        day: d,
        hour: (rem / 60) as u32,
        minute: (rem % 60) as u32,
        second: dt.second,
    };
    proof {
        assert(out.day_number() == day_n);
        assert(day_n * 1440 + rem == target);
    }
    Some(out)
}

/// Whole minutes from `start` to `end`, truncated toward zero, matching
/// integer division of the signed second difference by 60.
pub open spec fn duration_minutes(start: DateTime, end: DateTime) -> int {
    let d = end.seconds_of() - start.seconds_of();
    if d >= 0 {
        d / 60
    } else {
        -((-d) / 60)
    }
}

pub fn duration_minutes_exec(start: &DateTime, end: &DateTime) -> (r: i64)
    requires
        start.valid(),
        end.valid(),
    ensures
        r == duration_minutes(*start, *end),
        -6_000_000_000 < r < 6_000_000_000,
{
    let a = seconds_of_exec(start);
    let b = seconds_of_exec(end);
    if b >= a {
        ((b - a) / 60) as i64
    } else {
        -(((a - b) / 60) as i64)
    }
}

/// Signed second difference `end - start`.
pub fn seconds_between_exec(start: &DateTime, end: &DateTime) -> (r: i64)
    requires
        start.valid(),
        end.valid(),
    ensures
        r == end.seconds_of() - start.seconds_of(),
{
    let a = seconds_of_exec(start);
    let b = seconds_of_exec(end);
    if b >= a {
        (b - a) as i64
    } else {
        -((a - b) as i64)
    }
}

} // verus!
