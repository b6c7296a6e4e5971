//! Proleptic Gregorian calendar in UTC: civil dates, day numbers and Unix time.
//!
//! A day number counts days from 1970-01-01. The model of the calendar is
//! `civil_to_days`: the days of the years before, the days of the months
//! before, and the day of the month. The conversions are proved against it.

use vstd::prelude::*;
use crate::constants::SECONDS_PER_DAY;
use crate::error::VestingError;

verus! {

/// A civil date and time of day in UTC.
#[derive(Clone, Copy, Debug, PartialEq, Eq, Structural)]
pub struct DateTimeUtc {
    /// Proleptic Gregorian year.
    pub year: i32,
    /// Month of the year, 1 to 12.
    pub month: u32,
    /// Day of the month, 1 to 31.
    pub day: u32,
    /// Second of the day, 0 to 86399.
    pub sod: u32,
}

/// Days between 0000-01-01 and 1970-01-01.
pub open spec fn epoch_offset() -> int {
    719528
}

/// Whether `year` is a leap year of the proleptic Gregorian calendar.
pub open spec fn is_leap(year: int) -> bool {
    (year % 4 == 0 && year % 100 != 0) || year % 400 == 0
}

/// Number of days of `month` (1 to 12) in `year`.
pub open spec fn month_length(year: int, month: int) -> int {
    if month == 2 {
        if is_leap(year) {
            29
        } else {
            28
        }
    } else if month == 4 || month == 6 || month == 9 || month == 11 {
        30
    } else {
        31
    }
}

/// Number of leap years from year 0 up to, and not including, `year`
/// (counted negatively for years before 0).
pub open spec fn leap_years_before(year: int) -> int {
    (year + 3) / 4 - (year + 99) / 100 + (year + 399) / 400
}

/// Days from 0000-01-01 to the first day of `year`.
pub open spec fn days_before_year(year: int) -> int {
    365 * year + leap_years_before(year)
}

/// Days from the first day of `year` to the first day of `month`.
pub open spec fn days_before_month(year: int, month: int) -> int
    decreases month,
{
    if month <= 1 {
        0
    } else {
        days_before_month(year, month - 1) + month_length(year, month - 1)
    }
}

/// Days from 1970-01-01 to the given civil date. A day beyond the end of the
/// month counts on into the following month.
pub open spec fn civil_to_days(year: int, month: int, day: int) -> int {
    days_before_year(year) + days_before_month(year, month) + (day - 1) - epoch_offset()
}

/// Whether the three numbers name a day of the calendar.
pub open spec fn civil_valid(year: int, month: int, day: int) -> bool {
    1 <= month <= 12 && 1 <= day <= month_length(year, month)
}

/// The table of `days_before_month`, month by month.
pub proof fn lemma_days_before_month(year: int)
    ensures
        days_before_month(year, 1) == 0,
        days_before_month(year, 2) == 31,
        days_before_month(year, 3) == 59 + if is_leap(year) { 1int } else { 0 },
        days_before_month(year, 4) == 90 + if is_leap(year) { 1int } else { 0 },
        days_before_month(year, 5) == 120 + if is_leap(year) { 1int } else { 0 },
        days_before_month(year, 6) == 151 + if is_leap(year) { 1int } else { 0 },
        days_before_month(year, 7) == 181 + if is_leap(year) { 1int } else { 0 },
        days_before_month(year, 8) == 212 + if is_leap(year) { 1int } else { 0 },
        days_before_month(year, 9) == 243 + if is_leap(year) { 1int } else { 0 },
        days_before_month(year, 10) == 273 + if is_leap(year) { 1int } else { 0 },
        days_before_month(year, 11) == 304 + if is_leap(year) { 1int } else { 0 },
        days_before_month(year, 12) == 334 + if is_leap(year) { 1int } else { 0 },
        days_before_month(year, 13) == 365 + if is_leap(year) { 1int } else { 0 },
{
    reveal_with_fuel(days_before_month, 14);
}

/// Whether `year` is a leap year.
pub fn is_leap_year(year: i32) -> (leap: bool)
    ensures
        leap == is_leap(year as int),
{
    assert(year < 0 ==> ((-year) % 4 == 0 <==> year % 4 == 0));
    assert(year < 0 ==> ((-year) % 100 == 0 <==> year % 100 == 0));
    assert(year < 0 ==> ((-year) % 400 == 0 <==> year % 400 == 0));
    (year % 4 == 0 && year % 100 != 0) || (year % 400 == 0)
}

/// Number of days of `month` in `year`; fails for a month outside 1 to 12.
pub fn days_in_month(year: i32, month: u32) -> (res: Result<u32, VestingError>)
    ensures
        1 <= month <= 12 ==> res == Ok::<u32, VestingError>(
            month_length(year as int, month as int) as u32,
        ),
        !(1 <= month <= 12) ==> res == Err::<u32, VestingError>(VestingError::InvalidTimestamp),
{
    match month {
        1 | 3 | 5 | 7 | 8 | 10 | 12 => Ok(31),
        4 | 6 | 9 | 11 => Ok(30),
        2 => Ok(
            if is_leap_year(year) {
                29
            } else {
                28
            },
        ),
        _ => Err(VestingError::InvalidTimestamp),
    }
}

/// Days from 1970-01-01 to the civil date `y`-`m`-`d`.
///
/// Fails with `InvalidTimestamp` unless `m` is 1 to 12 and `d` is 1 to 31. The
/// day is not held against the length of the month: a day past the end of the
/// month counts on into the next one.
pub fn days_from_civil(y: i32, m: u32, d: u32) -> (res: Result<i64, VestingError>)
    ensures
        (1 <= m <= 12 && 1 <= d <= 31) ==> res == Ok::<i64, VestingError>(
            civil_to_days(y as int, m as int, d as int) as i64,
        ),
        (1 <= m <= 12 && 1 <= d <= 31) ==> i64::MIN <= civil_to_days(y as int, m as int, d as int)
            <= i64::MAX,
        !(1 <= m <= 12 && 1 <= d <= 31) ==> res == Err::<i64, VestingError>(
            VestingError::InvalidTimestamp,
        ),
{
    if m < 1 || m > 12 || d == 0 || d > 31 {
        return Err(VestingError::InvalidTimestamp);
    }
    let y: i64 = y as i64 - if m <= 2 { 1i64 } else { 0i64 };
    let era: i64 = (if y >= 0 { y } else { y - 399 }) / 400;
    let yoe: i64 = y - era * 400;
    let mp: i64 = m as i64 + if m > 2 { -3i64 } else { 9i64 };
    let doy: i64 = (153 * mp + 2) / 5 + (d as i64) - 1;
    let doe: i64 = yoe * 365 + yoe / 4 - yoe / 100 + doy;
    proof {
        lemma_days_before_month(y as int + if m <= 2 { 1int } else { 0 });
        assert(y == era * 400 + yoe && 0 <= yoe < 400);
        lemma_shifted_year(y as int, era as int, yoe as int);
    }
    Ok(era * 146097 + doe - 719468)
}

/// Adding a multiple of the divisor moves the quotient by that multiple and
/// leaves the remainder as it is.
pub proof fn lemma_div_mod_shift(a: int, b: int, d: int)
    requires
        0 < d,
    ensures
        (a * d + b) / d == a + b / d,
        (a * d + b) % d == b % d,
{
    vstd::arithmetic::div_mod::lemma_hoist_over_denominator(b, a, d as nat);
    vstd::arithmetic::div_mod::lemma_mod_multiples_vanish(a, b, d);
    assert(a * d == d * a) by (nonlinear_arith);
}

/// The leap-year count and the leap-year test of a year, from a multiple of
/// 400 years and the years beyond it.
pub proof fn lemma_era_split(y: int, era: int, yoe: int)
    requires
        y == era * 400 + yoe,
    ensures
        leap_years_before(y) == 97 * era + leap_years_before(yoe),
        is_leap(y) == is_leap(yoe),
{
    lemma_div_mod_shift(100 * era, yoe + 3, 4);
    lemma_div_mod_shift(4 * era, yoe + 99, 100);
    lemma_div_mod_shift(era, yoe + 399, 400);
    lemma_div_mod_shift(100 * era, yoe, 4);
    lemma_div_mod_shift(4 * era, yoe, 100);
    lemma_div_mod_shift(era, yoe, 400);
}

/// Leap years among the first 400 years: the count grows by one after each
/// leap year, and the leap days before 1 March of a year are counted by the
/// quotients of the year.
#[verifier::spinoff_prover]
pub proof fn lemma_leap_years_of_era(yoe: int)
    requires
        0 <= yoe < 400,
    ensures
        leap_years_before(yoe + 1) == leap_years_before(yoe) + if is_leap(yoe) { 1int } else { 0 },
        leap_years_before(yoe) + (if is_leap(yoe) { 1int } else { 0 }) == yoe / 4 - yoe / 100 + 1,
        is_leap(yoe + 1) == (era_year_length(yoe) == 366),
{
    let q = yoe / 4;
    let r = yoe % 4;
    let c = yoe / 100;
    let s = yoe % 100;
    assert(yoe == 4 * q + r && yoe == 100 * c + s);
    assert(0 <= c <= 3);
    assert((yoe + 3) / 4 == q + if r == 0 { 0int } else { 1 });
    assert((yoe + 4) / 4 == q + 1);
    assert((yoe + 99) / 100 == c + if s == 0 { 0int } else { 1 });
    assert((yoe + 100) / 100 == c + 1);
    assert((yoe + 399) / 400 == if yoe == 0 { 0int } else { 1 });
    assert((yoe + 400) / 400 == 1);
    assert((yoe + 1) % 4 == if r == 3 { 0int } else { r + 1 });
    assert((yoe + 1) % 100 == if s == 99 { 0int } else { s + 1 });
    assert((yoe + 1) % 400 == if yoe == 399 { 0int } else { yoe + 1 });
    assert(s % 4 == r);
}

/// A year has 365 days, or 366 if it is a leap year.
pub proof fn lemma_year_length(year: int)
    ensures
        days_before_year(year + 1) - days_before_year(year) == 365 + if is_leap(year) {
            1int
        } else {
            0
        },
{
    let era = year / 400;
    let yoe = year % 400;
    lemma_era_split(year, era, yoe);
    lemma_era_split(year + 1, era, yoe + 1);
    lemma_leap_years_of_era(yoe);
}

/// For a year that begins on 1 March, split into its 400-year era and the year
/// within it: days from 0000-03-01 to the first of March of that year.
pub proof fn lemma_shifted_year(y: int, era: int, yoe: int)
    requires
        y == era * 400 + yoe,
        0 <= yoe < 400,
    ensures
        era * 146097 + yoe * 365 + yoe / 4 - yoe / 100 + 1 == days_before_year(y + 1) - 365,
        era * 146097 + yoe * 365 + yoe / 4 - yoe / 100 + 1 == days_before_year(y) + if is_leap(y) {
            1int
        } else {
            0
        },
        is_leap(y + 1) == (era_year_length(yoe) == 366),
{
    lemma_era_split(y, era, yoe);
    lemma_era_split(y + 1, era, yoe + 1);
    lemma_leap_years_of_era(yoe);
    lemma_year_length(y);
}

/// Days before the given year of a 400-year era that begins on 1 March.
pub open spec fn days_before_era_year(yoe: int) -> int {
    yoe * 365 + yoe / 4 - yoe / 100
}

/// Number of days of the given year of a 400-year era that begins on 1 March.
pub open spec fn era_year_length(yoe: int) -> int {
    if yoe % 4 == 3 && (yoe % 100 != 99 || yoe == 399) {
        366
    } else {
        365
    }
}

/// The year of the era that a day of the era falls in.
#[verifier::spinoff_prover]
pub proof fn lemma_year_of_era(doe: int)
    requires
        0 <= doe <= 146096,
    ensures
        ({
            let yoe = (doe - doe / 1460 + doe / 36524 - doe / 146096) / 365;
            &&& 0 <= yoe <= 399
            &&& 0 <= doe - days_before_era_year(yoe) < era_year_length(yoe)
        }),
{
    let b = doe / 36524;
    let r = doe % 36524;
    let q = r / 1461;
    let s = r % 1461;
    let t = if s / 365 > 3 { 3 } else { s / 365 };
    let n = doe - doe / 1460 + doe / 36524 - doe / 146096;
    if doe == 146096 {
        assert(n / 365 == 399);
    } else {
        let yoe = 100 * b + 4 * q + t;
        assert(0 <= b <= 3);
        assert(0 <= q <= 24);
        assert(doe == 36524 * b + 1461 * q + s);
        assert(365 * yoe <= n < 365 * yoe + 365);
        assert(n / 365 == yoe);
        assert(yoe / 4 == 25 * b + q);
        assert(yoe / 100 == b);
    }
}

/// The month and the day of the month that a day of a year beginning on
/// 1 March falls on. `mp` counts the months from March.
#[verifier::spinoff_prover]
pub proof fn lemma_month_of_year_day(doy: int)
    requires
        0 <= doy <= 365,
    ensures
        ({
            let mp = (5 * doy + 2) / 153;
            let first = (153 * mp + 2) / 5;
            &&& 0 <= mp <= 11
            &&& first <= doy
            &&& mp < 11 ==> doy < (153 * (mp + 1) + 2) / 5
            &&& first == if mp == 0 {
                0int
            } else if mp == 1 {
                31
            } else if mp == 2 {
                61
            } else if mp == 3 {
                92
            } else if mp == 4 {
                122
            } else if mp == 5 {
                153
            } else if mp == 6 {
                184
            } else if mp == 7 {
                214
            } else if mp == 8 {
                245
            } else if mp == 9 {
                275
            } else if mp == 10 {
                306
            } else {
                337
            }
        }),
{
}

/// The date of a day of a year of an era: a day of the calendar whose day
/// number is that of the day.
#[verifier::spinoff_prover]
pub proof fn lemma_civil_of_year_day(era: int, yoe: int, doy: int)
    requires
        0 <= yoe < 400,
        0 <= doy < era_year_length(yoe),
    ensures
        ({
            let mp = (5 * doy + 2) / 153;
            let d = doy - (153 * mp + 2) / 5 + 1;
            let m = mp + if mp < 10 { 3int } else { -9 };
            let year = yoe + era * 400 + if m <= 2 { 1int } else { 0 };
            &&& 0 <= mp <= 11
            &&& civil_valid(year, m, d)
            &&& civil_to_days(year, m, d) == era * 146097 + days_before_era_year(yoe) + doy
                - 719468
        }),
{
    let mp = (5 * doy + 2) / 153;
    let first = (153 * mp + 2) / 5;
    let d = doy - first + 1;
    let m = mp + if mp < 10 { 3int } else { -9 };
    let y = yoe + era * 400;
    let year = y + if m <= 2 { 1int } else { 0 };
    lemma_month_of_year_day(doy);
    lemma_shifted_year(y, era, yoe);
    lemma_days_before_month(year);
    let leap_day = if is_leap(year) { 1int } else { 0 };
    if m <= 2 {
        assert(year == y + 1);
        assert(days_before_month(year, m) == first - 306);
        assert(doy <= 364 + leap_day);
    } else {
        assert(year == y);
        assert(days_before_month(year, m) == first + 59 + leap_day);
    }
}

/// The date that the steps of the conversion from a day number arrive at is a
/// day of the calendar, and its day number is the one that was given.
pub proof fn lemma_civil_parts(z: int, era: int, doe: int)
    requires
        z + 719468 == era * 146097 + doe,
        0 <= doe <= 146096,
    ensures
        ({
            let yoe = (doe - doe / 1460 + doe / 36524 - doe / 146096) / 365;
            let doy = doe - days_before_era_year(yoe);
            let mp = (5 * doy + 2) / 153;
            let d = doy - (153 * mp + 2) / 5 + 1;
            let m = mp + if mp < 10 { 3int } else { -9 };
            let year = yoe + era * 400 + if m <= 2 { 1int } else { 0 };
            &&& 0 <= yoe <= 399
            &&& 0 <= doy <= 365
            &&& 0 <= mp <= 11
            &&& civil_valid(year, m, d)
            &&& civil_to_days(year, m, d) == z
        }),
{
    let yoe = (doe - doe / 1460 + doe / 36524 - doe / 146096) / 365;
    let doy = doe - days_before_era_year(yoe);
    lemma_year_of_era(doe);
    lemma_civil_of_year_day(era, yoe, doy);
}

/// A date whose day number lies between those of the first day of year
/// `i32::MIN` and the last day of year `i32::MAX` has its year in that range.
pub proof fn lemma_year_in_range(year: int, month: int, day: int)
    requires
        civil_valid(year, month, day),
        civil_to_days(i32::MIN as int, 1, 1) <= civil_to_days(year, month, day) <= civil_to_days(
            i32::MAX as int,
            12,
            31,
        ),
    ensures
        i32::MIN <= year <= i32::MAX,
{
    lemma_days_before_month(year);
    lemma_days_before_month(i32::MAX as int);
    if year > i32::MAX {
        lemma_days_before_year_monotonic(i32::MAX as int + 1, year);
        lemma_year_length(i32::MAX as int);
    }
    if year < i32::MIN {
        lemma_days_before_year_monotonic(year + 1, i32::MIN as int);
        lemma_year_length(year);
    }
}

/// The civil date `(year, month, day)` that lies `z` days after 1970-01-01.
///
/// `z` must be a day of a year that fits the year's type: from the first day
/// of year `i32::MIN` to the last day of year `i32::MAX`.
pub fn civil_from_days(z: i64) -> (date: (i32, u32, u32))
    requires
        civil_to_days(i32::MIN as int, 1, 1) <= z <= civil_to_days(i32::MAX as int, 12, 31),
    ensures
        civil_valid(date.0 as int, date.1 as int, date.2 as int),
        civil_to_days(date.0 as int, date.1 as int, date.2 as int) == z,
{
    proof {
        lemma_civil_days_range();
    }
    let z0: i64 = z + 719468;
    let era: i64 = (if z0 >= 0 { z0 } else { z0 - 146096 }) / 146097;
    let doe: i64 = z0 - era * 146097;
    assert(0 <= doe <= 146096);
    proof {
        lemma_civil_parts(z as int, era as int, doe as int);
    }
    let yoe: i64 = (doe - doe / 1460 + doe / 36524 - doe / 146096) / 365;
    let y: i64 = yoe + era * 400;
    let doy: i64 = doe - (365 * yoe + yoe / 4 - yoe / 100);
    let mp: i64 = (5 * doy + 2) / 153;
    let d: i64 = doy - (153 * mp + 2) / 5 + 1;
    let m: i64 = mp + if mp < 10 { 3i64 } else { -9i64 };
    let year: i64 = y + if m <= 2 { 1i64 } else { 0i64 };
    proof {
        lemma_year_in_range(year as int, m as int, d as int);
    }
    (year as i32, m as u32, d as u32)
}

/// The day numbers of the first day of year `i32::MIN` and of the last day of
/// year `i32::MAX`.
pub proof fn lemma_civil_days_range()
    ensures
        civil_to_days(i32::MIN as int, 1, 1) == -784353015833,
        civil_to_days(i32::MAX as int, 12, 31) == 784351576776,
{
    lemma_days_before_month(i32::MAX as int);
}

/// A later year begins at least 365 days per year later.
pub proof fn lemma_days_before_year_monotonic(a: int, b: int)
    requires
        a <= b,
    ensures
        days_before_year(b) - days_before_year(a) >= 365 * (b - a),
        days_before_year(b) - days_before_year(a) <= 366 * (b - a),
    decreases b - a,
{
    if a < b {
        lemma_days_before_year_monotonic(a, b - 1);
        lemma_year_length(b - 1);
    }
}

/// The first day of the month after `month` lies `month_length` days after the
/// first day of `month`.
pub proof fn lemma_next_month(year: int, month: int)
    requires
        1 <= month <= 12,
    ensures
        month < 12 ==> civil_to_days(year, month + 1, 1) == civil_to_days(year, month, 1)
            + month_length(year, month),
        month == 12 ==> civil_to_days(year + 1, 1, 1) == civil_to_days(year, 12, 1) + 31,
{
    lemma_days_before_month(year);
    lemma_days_before_month(year + 1);
    lemma_year_length(year);
}

/// The day of the calendar that follows the given one.
pub open spec fn next_day(year: int, month: int, day: int) -> (int, int, int) {
    if day < month_length(year, month) {
        (year, month, day + 1)
    } else if month < 12 {
        (year, month + 1, 1)
    } else {
        (year + 1, 1, 1)
    }
}

/// The day numbers count the days of the calendar one by one: 1970-01-01 is
/// day 0, and the day after any day has the next number.
pub proof fn lemma_day_numbers_count_days(year: int, month: int, day: int)
    requires
        civil_valid(year, month, day),
    ensures
        civil_to_days(1970, 1, 1) == 0,
        civil_valid(next_day(year, month, day).0, next_day(year, month, day).1, next_day(
            year,
            month,
            day,
        ).2),
        civil_to_days(next_day(year, month, day).0, next_day(year, month, day).1, next_day(
            year,
            month,
            day,
        ).2) == civil_to_days(year, month, day) + 1,
{
    lemma_days_before_month(1970);
    lemma_days_before_month(year);
    lemma_days_before_month(year + 1);
    lemma_year_length(year);
}

/// Of two days of the calendar, the one that comes first by year, month and
/// day has the smaller day number.
pub proof fn lemma_civil_to_days_ordered(y1: int, m1: int, d1: int, y2: int, m2: int, d2: int)
    requires
        civil_valid(y1, m1, d1),
        civil_valid(y2, m2, d2),
        y1 < y2 || (y1 == y2 && m1 < m2) || (y1 == y2 && m1 == m2 && d1 < d2),
    ensures
        civil_to_days(y1, m1, d1) < civil_to_days(y2, m2, d2),
{
    lemma_days_before_month(y1);
    lemma_days_before_month(y2);
    if y1 < y2 {
        lemma_year_length(y1);
        lemma_days_before_year_monotonic(y1 + 1, y2);
    }
}

/// No two days of the calendar share a day number.
pub proof fn lemma_civil_to_days_injective(y1: int, m1: int, d1: int, y2: int, m2: int, d2: int)
    requires
        civil_valid(y1, m1, d1),
        civil_valid(y2, m2, d2),
        civil_to_days(y1, m1, d1) == civil_to_days(y2, m2, d2),
    ensures
        y1 == y2,
        m1 == m2,
        d1 == d2,
{
    if y1 < y2 || (y1 == y2 && m1 < m2) || (y1 == y2 && m1 == m2 && d1 < d2) {
        lemma_civil_to_days_ordered(y1, m1, d1, y2, m2, d2);
    } else if y1 != y2 || m1 != m2 || d1 != d2 {
        lemma_civil_to_days_ordered(y2, m2, d2, y1, m1, d1);
    }
}

/// The day number of a date whose year fits `i32`, with a month of 1 to 12
/// and a day of 1 to 31, lies within these bounds.
pub proof fn lemma_civil_to_days_bounds(year: int, month: int, day: int)
    requires
        i32::MIN <= year <= i32::MAX,
        1 <= month <= 12,
        1 <= day <= 31,
    ensures
        -784353015833 <= civil_to_days(year, month, day) <= 784351576776,
{
    lemma_civil_days_range();
    lemma_days_before_month(year);
    lemma_days_before_month(i32::MAX as int);
    lemma_days_before_year_monotonic(i32::MIN as int, year);
    lemma_days_before_year_monotonic(year, i32::MAX as int);
}

/// The largest Unix time whose civil year fits `i32`: the last second of year
/// `i32::MAX`.
pub const MAX_UNIX_TIME: i64 = 67_767_976_233_532_799;

impl DateTimeUtc {
    /// Whether the value names a second of a day of the calendar.
    pub open spec fn valid(self) -> bool {
        civil_valid(self.year as int, self.month as int, self.day as int) && self.sod < 86400
    }

    /// Seconds from 1970-01-01T00:00:00Z to this date and time.
    pub open spec fn unix_seconds(self) -> int {
        civil_to_days(self.year as int, self.month as int, self.day as int) * 86400 + self.sod
    }
}

/// The date and time of the Unix time `ts`: the one valid value whose
/// `unix_seconds` is `ts`.
pub open spec fn datetime_of(ts: int) -> DateTimeUtc {
    choose|dt: DateTimeUtc| dt.valid() && dt.unix_seconds() == ts
}

/// A valid date and time is the only one with its Unix time.
pub proof fn lemma_datetime_of_unique(dt: DateTimeUtc)
    requires
        dt.valid(),
    ensures
        datetime_of(dt.unix_seconds()) == dt,
{
    let other = datetime_of(dt.unix_seconds());
    assert(other.valid() && other.unix_seconds() == dt.unix_seconds());
    let a = civil_to_days(dt.year as int, dt.month as int, dt.day as int);
    let b = civil_to_days(other.year as int, other.month as int, other.day as int);
    assert(a == b && dt.sod == other.sod);
    lemma_civil_to_days_injective(
        dt.year as int,
        dt.month as int,
        dt.day as int,
        other.year as int,
        other.month as int,
        other.day as int,
    );
}

/// Unix time of a date and time.
///
/// Fails with `InvalidTimestamp` unless the second of the day is below 86400,
/// the month is 1 to 12 and the day is 1 to 31. No date that passes overflows.
pub fn unix_from_datetime(dt: DateTimeUtc) -> (res: Result<i64, VestingError>)
    ensures
        (dt.sod < 86400 && 1 <= dt.month <= 12 && 1 <= dt.day <= 31) ==> res == Ok::<
            i64,
            VestingError,
        >(dt.unix_seconds() as i64) && i64::MIN <= dt.unix_seconds() <= i64::MAX,
        !(dt.sod < 86400 && 1 <= dt.month <= 12 && 1 <= dt.day <= 31) ==> res == Err::<
            i64,
            VestingError,
        >(VestingError::InvalidTimestamp),
{
    if dt.sod >= 86_400 {
        return Err(VestingError::InvalidTimestamp);
    }
    let days: i64 = days_from_civil(dt.year, dt.month, dt.day)?;
    proof {
        lemma_civil_to_days_bounds(dt.year as int, dt.month as int, dt.day as int);
    }
    match days.checked_mul(SECONDS_PER_DAY) {
        Some(secs) => match secs.checked_add(dt.sod as i64) {
            Some(ts) => Ok(ts),
            None => Err(VestingError::MathOverflow),
        },
        None => Err(VestingError::MathOverflow),
    }
}

/// Date and time of a Unix time.
///
/// Fails with `InvalidTimestamp` for a negative time, and with `MathOverflow`
/// for a time past the last second of year `i32::MAX`.
pub fn datetime_from_unix(ts: i64) -> (res: Result<DateTimeUtc, VestingError>)
    ensures
        ts < 0 ==> res == Err::<DateTimeUtc, VestingError>(VestingError::InvalidTimestamp),
        ts > MAX_UNIX_TIME ==> res == Err::<DateTimeUtc, VestingError>(VestingError::MathOverflow),
        0 <= ts <= MAX_UNIX_TIME ==> res == Ok::<DateTimeUtc, VestingError>(datetime_of(ts as int))
            && datetime_of(ts as int).valid() && datetime_of(ts as int).unix_seconds() == ts,
{
    if ts < 0 {
        return Err(VestingError::InvalidTimestamp);
    }
    let days: i64 = ts / SECONDS_PER_DAY;
    let sod: u32 = (ts % SECONDS_PER_DAY) as u32;
    proof {
        lemma_civil_days_range();
    }
    if days > 784_351_576_776 {
        return Err(VestingError::MathOverflow);
    }
    let (y, m, d) = civil_from_days(days);
    let dt = DateTimeUtc { year: y, month: m, day: d, sod };
    proof {
        lemma_datetime_of_unique(dt);
    }
    Ok(dt)
}

} // verus!
