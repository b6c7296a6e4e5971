use vesting::utils::time::{is_after_vesting_end, month_index, months_between, DateTimeUtc};
use vesting::utils::calendar::unix_from_datetime;

fn ts(y: i32, m: u32, d: u32, sod: u32) -> i64 {
    unix_from_datetime(DateTimeUtc { year: y, month: m, day: d, sod }).unwrap()
}

#[test]
fn month_boundary_inclusive() {
    let start = ts(2026, 4, 11, 0);
    // now == start => month_index 1
    assert_eq!(month_index(start, start).unwrap(), 1);

    // boundary_1(start) should be 2026-05-11 00:00:00
    let b1 = ts(2026, 5, 11, 0);
    assert_eq!(months_between(b1, start).unwrap(), 1);
    assert_eq!(month_index(b1, start).unwrap(), 2);
    // one second before boundary_1 => still month_index 1
    assert_eq!(month_index(b1 - 1, start).unwrap(), 1);
}

#[test]
fn short_month_clamp_31_to_feb() {
    // 2024 is leap year: Jan 31 + 1 month => Feb 29
    let start = ts(2024, 1, 31, 0);
    let feb29 = ts(2024, 2, 29, 0);
    assert_eq!(months_between(feb29, start).unwrap(), 1);
    assert_eq!(month_index(feb29, start).unwrap(), 2);

    // One second before Feb 29 boundary still month_index 1.
    assert_eq!(month_index(feb29 - 1, start).unwrap(), 1);
}

#[test]
fn month_index_saturates_at_12() {
    let start = ts(2020, 1, 1, 0);
    // Well after 12 months => saturates.
    let now = ts(2030, 1, 1, 0);
    assert_eq!(month_index(now, start).unwrap(), 12);
    assert!(is_after_vesting_end(now, start).unwrap());
}

use vesting::error::VestingError;
use vesting::utils::calendar::{datetime_from_unix, MAX_UNIX_TIME};
use vesting::utils::time::{add_months_ym, boundary_ts_from_start};

fn dt(y: i32, m: u32, d: u32, sod: u32) -> DateTimeUtc {
    DateTimeUtc { year: y, month: m, day: d, sod }
}

#[test]
fn add_months_within_and_across_years() {
    assert_eq!(add_months_ym(2024, 1, 0), Ok((2024, 1)));
    assert_eq!(add_months_ym(2024, 1, 11), Ok((2024, 12)));
    assert_eq!(add_months_ym(2024, 1, 12), Ok((2025, 1)));
    assert_eq!(add_months_ym(2024, 12, 1), Ok((2025, 1)));
    assert_eq!(add_months_ym(2024, 6, 255), Ok((2045, 9)));
}

#[test]
fn add_months_backwards() {
    assert_eq!(add_months_ym(2024, 1, -1), Ok((2023, 12)));
    assert_eq!(add_months_ym(2024, 3, -15), Ok((2022, 12)));
    assert_eq!(add_months_ym(0, 1, -1), Ok((-1, 12)));
    assert_eq!(add_months_ym(-1, 1, -12), Ok((-2, 1)));
}

#[test]
fn add_months_rejects_bad_month() {
    assert_eq!(add_months_ym(2024, 0, 1), Err(VestingError::InvalidTimestamp));
    assert_eq!(add_months_ym(2024, 13, 1), Err(VestingError::InvalidTimestamp));
}

#[test]
fn add_months_reports_a_year_out_of_range() {
    assert_eq!(add_months_ym(i32::MAX, 12, 0), Ok((i32::MAX, 12)));
    assert_eq!(add_months_ym(i32::MAX, 12, 1), Err(VestingError::MathOverflow));
    assert_eq!(add_months_ym(i32::MAX, 1, 12), Err(VestingError::MathOverflow));
    assert_eq!(add_months_ym(i32::MIN, 1, 0), Ok((i32::MIN, 1)));
    assert_eq!(add_months_ym(i32::MIN, 1, -1), Err(VestingError::MathOverflow));
}

#[test]
fn boundaries_do_not_drift_after_a_short_month() {
    let start = dt(2024, 1, 31, 0);
    assert_eq!(boundary_ts_from_start(start, 0), Ok(ts(2024, 1, 31, 0)));
    assert_eq!(boundary_ts_from_start(start, 1), Ok(ts(2024, 2, 29, 0)));
    assert_eq!(boundary_ts_from_start(start, 2), Ok(ts(2024, 3, 31, 0)));
    assert_eq!(boundary_ts_from_start(start, 3), Ok(ts(2024, 4, 30, 0)));
    assert_eq!(boundary_ts_from_start(start, 4), Ok(ts(2024, 5, 31, 0)));
    assert_eq!(boundary_ts_from_start(start, 5), Ok(ts(2024, 6, 30, 0)));
    assert_eq!(boundary_ts_from_start(start, 12), Ok(ts(2025, 1, 31, 0)));
    assert_eq!(boundary_ts_from_start(start, 13), Ok(ts(2025, 2, 28, 0)));
}

#[test]
fn boundary_day_is_the_last_day_of_the_next_month_for_a_start_on_the_31st() {
    for month in [1u32, 3, 5, 7, 8, 10, 12] {
        let start = dt(2023, month, 31, 3_600);
        let b1 = boundary_ts_from_start(start, 1).unwrap();
        let date = datetime_from_unix(b1).unwrap();
        let (y, m) = add_months_ym(2023, month, 1).unwrap();
        assert_eq!(date.year, y);
        assert_eq!(date.month, m);
        assert_eq!(date.day, vesting::utils::calendar::days_in_month(y, m).unwrap());
        assert_eq!(date.sod, 3_600);
    }
}

#[test]
fn boundary_keeps_the_time_of_day() {
    let start = dt(2026, 4, 11, 45_296);
    assert_eq!(boundary_ts_from_start(start, 7), Ok(ts(2026, 11, 11, 45_296)));
}

#[test]
fn boundary_rejects_a_bad_start() {
    assert_eq!(
        boundary_ts_from_start(dt(2024, 13, 1, 0), 1),
        Err(VestingError::InvalidTimestamp)
    );
    assert_eq!(
        boundary_ts_from_start(dt(2024, 1, 0, 0), 1),
        Err(VestingError::InvalidTimestamp)
    );
    assert_eq!(
        boundary_ts_from_start(dt(2024, 1, 1, 86_400), 1),
        Err(VestingError::InvalidTimestamp)
    );
    assert_eq!(
        boundary_ts_from_start(dt(i32::MAX, 12, 1, 0), 1),
        Err(VestingError::MathOverflow)
    );
}

#[test]
fn month_index_at_every_boundary() {
    let start_dt = dt(2024, 1, 31, 12);
    let start = ts(2024, 1, 31, 12);
    for k in 0..=11u8 {
        let b = boundary_ts_from_start(start_dt, k).unwrap();
        assert_eq!(months_between(b, start), Ok(k));
        assert_eq!(month_index(b, start), Ok(k + 1));
        if k > 0 {
            assert_eq!(month_index(b - 1, start), Ok(k));
        }
    }
    let end = boundary_ts_from_start(start_dt, 12).unwrap();
    assert_eq!(month_index(end - 1, start), Ok(12));
    assert_eq!(months_between(end - 1, start), Ok(11));
    assert_eq!(month_index(end, start), Ok(12));
    assert_eq!(months_between(end, start), Ok(12));
}

#[test]
fn leap_month_boundary() {
    let start = ts(2024, 1, 31, 0);
    assert_eq!(month_index(ts(2024, 2, 29, 0), start), Ok(2));
    assert_eq!(month_index(ts(2024, 2, 28, 86_399), start), Ok(1));
}

#[test]
fn month_index_never_goes_down() {
    let start = ts(2023, 8, 31, 0);
    let mut now = start;
    let mut previous = 1u8;
    while now < start + 400 * 86_400 {
        let k = month_index(now, start).unwrap();
        assert!(k >= previous);
        previous = k;
        now += 86_400 / 2;
    }
    assert_eq!(previous, 12);
}

#[test]
fn month_index_before_start_is_an_error() {
    let start = ts(2026, 4, 11, 0);
    assert_eq!(month_index(start - 1, start), Err(VestingError::BeforeStart));
    assert_eq!(months_between(start - 1, start), Err(VestingError::BeforeStart));
    assert_eq!(month_index(-5, -3), Err(VestingError::BeforeStart));
}

#[test]
fn month_index_rejects_a_negative_start() {
    assert_eq!(month_index(10, -3), Err(VestingError::InvalidTimestamp));
    assert_eq!(months_between(-3, -3), Err(VestingError::InvalidTimestamp));
    assert_eq!(is_after_vesting_end(10, -3), Err(VestingError::InvalidTimestamp));
}

#[test]
fn month_index_reports_a_start_out_of_range() {
    assert_eq!(month_index(i64::MAX, MAX_UNIX_TIME + 1), Err(VestingError::MathOverflow));
    assert_eq!(is_after_vesting_end(i64::MAX, MAX_UNIX_TIME + 1), Err(VestingError::MathOverflow));
    // A start in the last year that has a date: the boundaries of the months
    // of the year after have none.
    let start = ts(i32::MAX, 3, 15, 0);
    assert_eq!(month_index(start, start), Ok(1));
    assert_eq!(month_index(ts(i32::MAX, 11, 15, 0), start), Ok(9));
    assert_eq!(month_index(ts(i32::MAX, 12, 15, 0), start), Err(VestingError::MathOverflow));
    assert_eq!(is_after_vesting_end(start, start), Err(VestingError::MathOverflow));
}

#[test]
fn vesting_end_is_inclusive() {
    let start = ts(2026, 4, 11, 0);
    let end = ts(2027, 4, 11, 0);
    assert_eq!(is_after_vesting_end(end - 1, start), Ok(false));
    assert_eq!(is_after_vesting_end(end, start), Ok(true));
    assert_eq!(is_after_vesting_end(start - 1, start), Ok(false));
    assert_eq!(is_after_vesting_end(-10, -5), Ok(false));
}

fn naive_leap(y: i64) -> bool {
    (y % 4 == 0 && y % 100 != 0) || y % 400 == 0
}

fn naive_month_days(y: i64, m: i64) -> i64 {
    match m {
        4 | 6 | 9 | 11 => 30,
        2 => {
            if naive_leap(y) {
                29
            } else {
                28
            }
        }
        _ => 31,
    }
}

/// Date of a day number from 1970 on, found by walking the years and months.
fn naive_date(mut days: i64) -> (i64, i64, i64) {
    let mut y = 1970;
    loop {
        let len = if naive_leap(y) { 366 } else { 365 };
        if days < len {
            break;
        }
        days -= len;
        y += 1;
    }
    let mut m = 1;
    while days >= naive_month_days(y, m) {
        days -= naive_month_days(y, m);
        m += 1;
    }
    (y, m, days + 1)
}

/// Day number of a date from 1970 on, found by walking the years and months.
fn naive_days(y: i64, m: i64, d: i64) -> i64 {
    let mut days = 0;
    for year in 1970..y {
        days += if naive_leap(year) { 366 } else { 365 };
    }
    for month in 1..m {
        days += naive_month_days(y, month);
    }
    days + d - 1
}

fn naive_boundary(start: i64, k: i64) -> i64 {
    let (y, m, d) = naive_date(start / 86_400);
    let months = y * 12 + (m - 1) + k;
    let (by, bm) = (months / 12, months % 12 + 1);
    let bd = d.min(naive_month_days(by, bm));
    naive_days(by, bm, bd) * 86_400 + start % 86_400
}

fn naive_month_index(now: i64, start: i64) -> u8 {
    let mut reached = 0;
    for k in 1..=12 {
        if now >= naive_boundary(start, k) {
            reached = k;
        }
    }
    (reached + 1).min(12) as u8
}

fn next_number(seed: &mut u64) -> u64 {
    *seed = seed.wrapping_mul(6_364_136_223_846_793_005).wrapping_add(1_442_695_040_888_963_407);
    *seed >> 11
}

#[test]
fn month_index_agrees_with_a_walk_through_the_calendar() {
    let mut seed = 20_240_131u64;
    for _ in 0..3_000 {
        let start = (next_number(&mut seed) % 4_000_000_000) as i64;
        let offset = (next_number(&mut seed) % (420 * 86_400)) as i64;
        let now = start + offset;
        assert_eq!(month_index(now, start), Ok(naive_month_index(now, start)));
        let start_dt = datetime_from_unix(start).unwrap();
        let k = (next_number(&mut seed) % 13) as u8;
        assert_eq!(
            boundary_ts_from_start(start_dt, k),
            Ok(naive_boundary(start, k as i64))
        );
        assert_eq!(
            is_after_vesting_end(now, start),
            Ok(now >= naive_boundary(start, 12))
        );
    }
}

#[test]
fn month_index_agrees_at_the_ends_of_months() {
    for year in [2023, 2024, 2027, 2028, 2099, 2100] {
        for month in 1..=12u32 {
            let last = vesting::utils::calendar::days_in_month(year, month).unwrap();
            for day in [28u32, 29, 30, 31] {
                if day > last {
                    continue;
                }
                let start = ts(year, month, day, 86_399);
                for k in 0..=12i64 {
                    let b = naive_boundary(start, k);
                    assert_eq!(month_index(b, start), Ok(naive_month_index(b, start)));
                    assert_eq!(month_index(b, start), Ok(((k + 1).min(12)) as u8));
                    if k > 0 {
                        assert_eq!(month_index(b - 1, start), Ok(k as u8));
                    }
                }
            }
        }
    }
}
