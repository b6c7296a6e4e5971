//! UTC calendar-month arithmetic for the vesting schedule.
//!
//! Boundary `k` of a schedule is the start date and time moved forward by `k`
//! calendar months, with the day of the month clamped to the last day of the
//! target month. The clamp never carries over: every boundary is computed from
//! the day of the start date.

use vstd::prelude::*;
use crate::constants::DURATION_MONTHS;
use crate::error::VestingError;
use crate::utils::calendar::{
    civil_to_days, datetime_from_unix, datetime_of, days_before_era_year, days_in_month,
    lemma_civil_days_range, lemma_civil_parts, lemma_civil_to_days_bounds,
    lemma_datetime_of_unique, lemma_div_mod_shift, lemma_next_month, lemma_year_in_range,
    month_length, unix_from_datetime, MAX_UNIX_TIME,
};
pub use crate::utils::calendar::DateTimeUtc;

verus! {

/// Year and month that lie `add` months after `month` of `year`.
pub open spec fn add_months(year: int, month: int, add: int) -> (int, int) {
    let n = year * 12 + (month - 1) + add;
    (n / 12, n % 12 + 1)
}

/// Year and month that lie `add` months after, or for a negative `add` before,
/// `month` of `year`.
///
/// Fails with `InvalidTimestamp` for a month outside 1 to 12, and with
/// `MathOverflow` where the year of the result does not fit `i32`.
pub fn add_months_ym(year: i32, month: u32, add: i32) -> (res: Result<(i32, u32), VestingError>)
    ensures
        !(1 <= month <= 12) ==> res == Err::<(i32, u32), VestingError>(
            VestingError::InvalidTimestamp,
        ),
        1 <= month <= 12 ==> ({
            let (y, m) = add_months(year as int, month as int, add as int);
            &&& 1 <= m <= 12
            &&& i32::MIN <= y <= i32::MAX ==> res == Ok::<(i32, u32), VestingError>(
                (y as i32, m as u32),
            )
            &&& !(i32::MIN <= y <= i32::MAX) ==> res == Err::<(i32, u32), VestingError>(
                VestingError::MathOverflow,
            )
        }),
{
    if month < 1 || month > 12 {
        return Err(VestingError::InvalidTimestamp);
    }
    let base: i64 = (year as i64) * 12 + ((month as i64) - 1);
    let next: i64 = base + (add as i64);
    let y: i64 = match next.checked_div_euclid(12) {
        Some(q) => q,
        None => {
            return Err(VestingError::MathOverflow);
        },
    };
    let m0: i64 = match next.checked_rem_euclid(12) {
        Some(r) => r,
        None => {
            return Err(VestingError::MathOverflow);
        },
    };
    if y < i32::MIN as i64 || y > i32::MAX as i64 {
        return Err(VestingError::MathOverflow);
    }
    Ok((y as i32, (m0 as u32) + 1))
}

/// Day of the month of boundary `k`: the day of the start date, clamped to the
/// length of the month that the boundary falls in.
pub open spec fn boundary_day(start: DateTimeUtc, k: int) -> int {
    let (y, m) = add_months(start.year as int, start.month as int, k);
    if start.day <= month_length(y, m) {
        start.day as int
    } else {
        month_length(y, m)
    }
}

/// Unix time of boundary `k` of a schedule that starts at `start`: the start
/// moved forward by `k` calendar months, the day of the month clamped to the
/// length of the target month.
pub open spec fn boundary_at(start: DateTimeUtc, k: int) -> int {
    let (y, m) = add_months(start.year as int, start.month as int, k);
    civil_to_days(y, m, boundary_day(start, k)) * 86400 + start.sod
}

/// Whether the year of boundary `k` fits `i32`.
pub open spec fn boundary_fits(start: DateTimeUtc, k: int) -> bool {
    add_months(start.year as int, start.month as int, k).0 <= i32::MAX
}

/// What `boundary_ts_from_start` returns.
pub open spec fn boundary_spec(start: DateTimeUtc, k: int) -> Result<i64, VestingError> {
    if !(1 <= start.month <= 12) {
        Err(VestingError::InvalidTimestamp)
    } else if !boundary_fits(start, k) {
        Err(VestingError::MathOverflow)
    } else if start.sod >= 86400 || start.day == 0 {
        Err(VestingError::InvalidTimestamp)
    } else {
        Ok(boundary_at(start, k) as i64)
    }
}

/// Unix time of the boundary that lies `months_to_add` calendar months after
/// `start`.
///
/// Fails with `InvalidTimestamp` where the month of `start` is not 1 to 12,
/// its day is 0 or its second of the day is 86400 or more, and with
/// `MathOverflow` where the year of the boundary does not fit `i32`.
pub fn boundary_ts_from_start(start: DateTimeUtc, months_to_add: u8) -> (res: Result<
    i64,
    VestingError,
>)
    ensures
        res == boundary_spec(start, months_to_add as int),
        res is Ok ==> res->Ok_0 == boundary_at(start, months_to_add as int),
{
    let (y, m) = add_months_ym(start.year, start.month, months_to_add as i32)?;
    let dim: u32 = days_in_month(y, m)?;
    let d: u32 = if start.day <= dim { start.day } else { dim };
    unix_from_datetime(DateTimeUtc { year: y, month: m, day: d, sod: start.sod })
}

/// Boundary 0 of a valid start is the start itself.
pub proof fn lemma_boundary_zero(start: DateTimeUtc)
    requires
        start.valid(),
    ensures
        boundary_at(start, 0) == start.unix_seconds(),
        boundary_spec(start, 0) == Ok::<i64, VestingError>(start.unix_seconds() as i64),
{
    lemma_div_mod_shift(start.year as int, start.month as int - 1, 12);
    lemma_civil_to_days_bounds(start.year as int, start.month as int, start.day as int);
}

/// Each boundary lies after the one before it.
pub proof fn lemma_boundary_step(start: DateTimeUtc, k: int)
    requires
        1 <= start.month <= 12,
        1 <= start.day,
    ensures
        boundary_at(start, k) < boundary_at(start, k + 1),
{
    let (y1, m1) = add_months(start.year as int, start.month as int, k);
    let (y2, m2) = add_months(start.year as int, start.month as int, k + 1);
    assert(1 <= m1 <= 12);
    assert(m1 < 12 ==> y2 == y1 && m2 == m1 + 1);
    assert(m1 == 12 ==> y2 == y1 + 1 && m2 == 1);
    lemma_next_month(y1, m1);
    let d1 = boundary_day(start, k);
    let d2 = boundary_day(start, k + 1);
    assert(civil_to_days(y1, m1, d1) == civil_to_days(y1, m1, 1) + d1 - 1);
    assert(civil_to_days(y2, m2, d2) == civil_to_days(y2, m2, 1) + d2 - 1);
}

/// A later boundary lies after an earlier one.
pub proof fn lemma_boundary_increasing(start: DateTimeUtc, j: int, k: int)
    requires
        1 <= start.month <= 12,
        1 <= start.day,
        j < k,
    ensures
        boundary_at(start, j) < boundary_at(start, k),
    decreases k - j,
{
    lemma_boundary_step(start, k - 1);
    if j < k - 1 {
        lemma_boundary_increasing(start, j, k - 1);
    }
}

/// Where the year of a boundary fits `i32`, so does that of every earlier one.
pub proof fn lemma_boundary_fits_earlier(start: DateTimeUtc, j: int, k: int)
    requires
        j <= k,
        boundary_fits(start, k),
    ensures
        boundary_fits(start, j),
{
}

/// The largest `k` up to `limit` whose boundary is not after `now`, and 0
/// where there is none.
pub open spec fn last_boundary_reached(start: DateTimeUtc, now: int, limit: nat) -> nat
    decreases limit,
{
    if limit == 0 {
        0
    } else if boundary_at(start, limit as int) <= now {
        limit
    } else {
        last_boundary_reached(start, now, (limit - 1) as nat)
    }
}

/// `last_boundary_reached` is `k` where boundary `k` has been reached and none
/// of the later ones up to `limit` has.
pub proof fn lemma_last_boundary_reached(start: DateTimeUtc, now: int, limit: nat, k: nat)
    requires
        k <= limit,
        k == 0 || boundary_at(start, k as int) <= now,
        forall|j: int| k < j <= limit ==> now < boundary_at(start, j),
    ensures
        last_boundary_reached(start, now, limit) == k,
    decreases limit,
{
    if limit > k {
        lemma_last_boundary_reached(start, now, (limit - 1) as nat, k);
    }
}

/// What `months_between` returns: the number of whole months of the schedule
/// that have passed at `now_ts`, at most 12.
///
/// The boundaries are looked at in turn, up to the first that lies after
/// `now_ts`; where the year of one of those does not fit `i32`, the result is
/// `MathOverflow`.
pub open spec fn months_between_spec(now_ts: i64, start_ts: i64) -> Result<u8, VestingError> {
    if now_ts < start_ts {
        Err(VestingError::BeforeStart)
    } else if start_ts < 0 {
        Err(VestingError::InvalidTimestamp)
    } else if start_ts > MAX_UNIX_TIME {
        Err(VestingError::MathOverflow)
    } else {
        let start = datetime_of(start_ts as int);
        let k = last_boundary_reached(start, now_ts as int, 12);
        if !boundary_fits(start, if k < 12 { k as int + 1 } else { 12int }) {
            Err(VestingError::MathOverflow)
        } else {
            Ok(k as u8)
        }
    }
}

/// The largest `k`, at most 12, such that `now_ts` is at or after boundary `k`
/// of the schedule that starts at `start_ts`. A time that equals a boundary
/// has reached it.
pub fn months_between(now_ts: i64, start_ts: i64) -> (res: Result<u8, VestingError>)
    ensures
        res == months_between_spec(now_ts, start_ts),
        res is Ok ==> res->Ok_0 <= 12,
{
    if now_ts < start_ts {
        return Err(VestingError::BeforeStart);
    }
    let start_dt = datetime_from_unix(start_ts)?;
    let mut last_ok: u8 = 0;
    let mut k: u8 = 0;
    proof {
        lemma_boundary_zero(start_dt);
    }
    while k <= DURATION_MONTHS
        invariant_except_break
            k <= 13,
            last_ok as int == if k == 0 { 0int } else { k - 1 },
        invariant
            start_dt.valid(),
            start_dt == datetime_of(start_ts as int),
            0 <= start_ts <= MAX_UNIX_TIME,
            start_ts <= now_ts,
            boundary_at(start_dt, 0) == start_ts,
            last_ok <= 12,
            forall|j: int| 0 <= j <= last_ok ==> boundary_at(start_dt, j) <= now_ts,
            forall|j: int| 0 <= j <= last_ok ==> boundary_fits(start_dt, j),
        ensures
            last_ok < 12 ==> now_ts < boundary_at(start_dt, last_ok + 1),
            boundary_fits(start_dt, if last_ok < 12 { last_ok + 1 } else { 12 }),
        decreases 13 - k,
    {
        let b: i64 = match boundary_ts_from_start(start_dt, k) {
            Ok(b) => b,
            Err(e) => {
                proof {
                    assert(e == VestingError::MathOverflow);
                    assert(!boundary_fits(start_dt, k as int));
                    assert(k >= 1);
                    assert(last_ok == k - 1);
                    let reached = last_boundary_reached(start_dt, now_ts as int, 12);
                    lemma_reached_at_least(start_dt, now_ts as int, 12, last_ok as nat);
                    if reached < 12 {
                        lemma_boundary_fits_later(start_dt, k as int, reached as int + 1);
                    } else {
                        lemma_boundary_fits_later(start_dt, k as int, 12);
                    }
                }
                return Err(e);
            },
        };
        if now_ts >= b {
            last_ok = k;
        } else {
            break ;
        }
        k += 1;
    }
    proof {
        assert forall|j: int| last_ok < j <= 12 implies now_ts < boundary_at(start_dt, j) by {
            if j > last_ok + 1 {
                lemma_boundary_increasing(start_dt, last_ok + 1, j);
            }
        }
        lemma_last_boundary_reached(start_dt, now_ts as int, 12, last_ok as nat);
    }
    Ok(last_ok)
}

/// Where boundary `k` has been reached, `last_boundary_reached` is at least `k`.
pub proof fn lemma_reached_at_least(start: DateTimeUtc, now: int, limit: nat, k: nat)
    requires
        k <= limit,
        boundary_at(start, k as int) <= now,
    ensures
        last_boundary_reached(start, now, limit) >= k,
    decreases limit,
{
    if limit > k && !(boundary_at(start, limit as int) <= now) {
        lemma_reached_at_least(start, now, (limit - 1) as nat, k);
    }
}

/// Where the year of a boundary does not fit `i32`, neither does that of any
/// later one.
pub proof fn lemma_boundary_fits_later(start: DateTimeUtc, j: int, k: int)
    requires
        j <= k,
        !boundary_fits(start, j),
    ensures
        !boundary_fits(start, k),
{
}

/// What `month_index` returns: one more than the number of whole months that
/// have passed, and at most 12.
pub open spec fn month_index_spec(now_ts: i64, start_ts: i64) -> Result<u8, VestingError> {
    match months_between_spec(now_ts, start_ts) {
        Ok(k) => Ok(
            if k >= 12 {
                12u8
            } else {
                (k + 1) as u8
            },
        ),
        Err(e) => Err(e),
    }
}

/// Index, from 1 to 12, of the month of the schedule that `now_ts` falls in.
/// From boundary `k` on, and before boundary `k + 1`, the index is `k + 1`;
/// from boundary 11 on it stays 12.
pub fn month_index(now_ts: i64, start_ts: i64) -> (res: Result<u8, VestingError>)
    ensures
        res == month_index_spec(now_ts, start_ts),
        res is Ok ==> 1 <= res->Ok_0 <= 12,
{
    if now_ts < start_ts {
        return Err(VestingError::BeforeStart);
    }
    let mb: u8 = months_between(now_ts, start_ts)?;
    let raw: u8 = mb.saturating_add(1);
    Ok(if raw <= DURATION_MONTHS { raw } else { DURATION_MONTHS })
}

/// What `is_after_vesting_end` returns.
pub open spec fn is_after_vesting_end_spec(now_ts: i64, start_ts: i64) -> Result<
    bool,
    VestingError,
> {
    if now_ts < start_ts {
        Ok(false)
    } else if start_ts < 0 {
        Err(VestingError::InvalidTimestamp)
    } else if start_ts > MAX_UNIX_TIME {
        Err(VestingError::MathOverflow)
    } else if !boundary_fits(datetime_of(start_ts as int), 12) {
        Err(VestingError::MathOverflow)
    } else {
        Ok(now_ts >= boundary_at(datetime_of(start_ts as int), 12))
    }
}

/// Whether `now_ts` is at or after the end of the vesting period, boundary 12.
/// A time before the start is not.
pub fn is_after_vesting_end(now_ts: i64, start_ts: i64) -> (res: Result<bool, VestingError>)
    ensures
        res == is_after_vesting_end_spec(now_ts, start_ts),
{
    if now_ts < start_ts {
        return Ok(false);
    }
    let start_dt = datetime_from_unix(start_ts)?;
    let end_boundary: i64 = boundary_ts_from_start(start_dt, DURATION_MONTHS)?;
    Ok(now_ts >= end_boundary)
}

/// Whether `start_ts` can start a schedule: it has a civil date, and the year
/// of the end of the vesting period fits `i32`.
pub open spec fn schedule_start_valid(start_ts: i64) -> bool {
    0 <= start_ts <= MAX_UNIX_TIME && boundary_fits(datetime_of(start_ts as int), 12)
}

/// The month index of a valid schedule, at or after its start: one more than
/// the number of boundaries reached, the start not counted, and at most 12.
pub proof fn lemma_month_index_value(now_ts: i64, start_ts: i64)
    requires
        schedule_start_valid(start_ts),
        start_ts <= now_ts,
    ensures
        ({
            let k = last_boundary_reached(datetime_of(start_ts as int), now_ts as int, 12);
            &&& months_between_spec(now_ts, start_ts) == Ok::<u8, VestingError>(k as u8)
            &&& month_index_spec(now_ts, start_ts) == Ok::<u8, VestingError>(
                if k >= 12 {
                    12u8
                } else {
                    (k + 1) as u8
                },
            )
            &&& k <= 12
        }),
{
    let start = datetime_of(start_ts as int);
    let k = last_boundary_reached(start, now_ts as int, 12);
    lemma_reached_at_most(start, now_ts as int, 12);
    lemma_boundary_fits_earlier(start, if k < 12 { k as int + 1 } else { 12int }, 12);
}

/// `last_boundary_reached` is at most its limit.
pub proof fn lemma_reached_at_most(start: DateTimeUtc, now: int, limit: nat)
    ensures
        last_boundary_reached(start, now, limit) <= limit,
    decreases limit,
{
    if limit > 0 {
        lemma_reached_at_most(start, now, (limit - 1) as nat);
    }
}

/// Boundary inclusivity: a time that equals boundary `k`, for `k` from 0 to
/// 11, has month index `k + 1`.
pub proof fn lemma_month_index_at_boundary(start_ts: i64, k: int, now_ts: i64)
    requires
        schedule_start_valid(start_ts),
        0 <= k <= 11,
        now_ts == boundary_at(datetime_of(start_ts as int), k),
    ensures
        month_index_spec(now_ts, start_ts) == Ok::<u8, VestingError>((k + 1) as u8),
        months_between_spec(now_ts, start_ts) == Ok::<u8, VestingError>(k as u8),
{
    let start = datetime_of(start_ts as int);
    lemma_datetime_of_valid(start_ts);
    lemma_boundary_zero(start);
    if k > 0 {
        lemma_boundary_increasing(start, 0, k);
    }
    assert forall|j: int| k < j <= 12 implies now_ts < boundary_at(start, j) by {
        lemma_boundary_increasing(start, k, j);
    }
    lemma_last_boundary_reached(start, now_ts as int, 12, k as nat);
    lemma_month_index_value(now_ts, start_ts);
}

/// The last second before the end of the vesting period has month index 12.
pub proof fn lemma_month_index_before_end(start_ts: i64, now_ts: i64)
    requires
        schedule_start_valid(start_ts),
        now_ts == boundary_at(datetime_of(start_ts as int), 12) - 1,
    ensures
        month_index_spec(now_ts, start_ts) == Ok::<u8, VestingError>(12u8),
        months_between_spec(now_ts, start_ts) == Ok::<u8, VestingError>(11u8),
{
    let start = datetime_of(start_ts as int);
    lemma_datetime_of_valid(start_ts);
    lemma_boundary_zero(start);
    lemma_boundary_increasing(start, 0, 11);
    lemma_boundary_increasing(start, 11, 12);
    lemma_last_boundary_reached(start, now_ts as int, 12, 11);
    lemma_month_index_value(now_ts, start_ts);
}

/// From the end of the vesting period on the month index is 12, and all 12
/// months have passed.
pub proof fn lemma_month_index_from_end(start_ts: i64, now_ts: i64)
    requires
        schedule_start_valid(start_ts),
        now_ts >= boundary_at(datetime_of(start_ts as int), 12),
    ensures
        month_index_spec(now_ts, start_ts) == Ok::<u8, VestingError>(12u8),
        months_between_spec(now_ts, start_ts) == Ok::<u8, VestingError>(12u8),
        is_after_vesting_end_spec(now_ts, start_ts) == Ok::<bool, VestingError>(true),
{
    let start = datetime_of(start_ts as int);
    lemma_datetime_of_valid(start_ts);
    lemma_boundary_zero(start);
    lemma_boundary_increasing(start, 0, 12);
    lemma_month_index_value(now_ts, start_ts);
}

/// The date and time of a Unix time that has one is valid and has that time.
pub proof fn lemma_datetime_of_valid(ts: i64)
    requires
        0 <= ts <= MAX_UNIX_TIME,
    ensures
        datetime_of(ts as int).valid(),
        datetime_of(ts as int).unix_seconds() == ts,
{
    let days = ts as int / 86400;
    let sod = ts as int % 86400;
    lemma_civil_days_range();
    let (era, doe) = ((days + 719468) / 146097, (days + 719468) % 146097);
    lemma_civil_parts(days, era, doe);
    let yoe = (doe - doe / 1460 + doe / 36524 - doe / 146096) / 365;
    let doy = doe - days_before_era_year(yoe);
    let mp = (5 * doy + 2) / 153;
    let d = doy - (153 * mp + 2) / 5 + 1;
    let m = mp + if mp < 10 { 3int } else { -9 };
    let year = yoe + era * 400 + if m <= 2 { 1int } else { 0 };
    lemma_year_in_range(year, m, d);
    let dt = DateTimeUtc { year: year as i32, month: m as u32, day: d as u32, sod: sod as u32 };
    assert(dt.valid() && dt.unix_seconds() == ts);
}

/// No drift: boundary `k` falls in the month `k` months after the start month,
/// on the day of the start date clamped to the length of that month, at the
/// start's time of day. The day comes from the start date, whatever the days
/// of the boundaries before.
pub proof fn lemma_boundary_date(start: DateTimeUtc, k: int)
    requires
        start.valid(),
        0 <= k,
        boundary_fits(start, k),
    ensures
        ({
            let (y, m) = add_months(start.year as int, start.month as int, k);
            datetime_of(boundary_at(start, k)) == (DateTimeUtc {
                year: y as i32,
                month: m as u32,
                day: boundary_day(start, k) as u32,
                sod: start.sod,
            })
        }),
        datetime_of(boundary_at(start, k)).day == if start.day <= month_length(
            add_months(start.year as int, start.month as int, k).0,
            add_months(start.year as int, start.month as int, k).1,
        ) {
            start.day as int
        } else {
            month_length(
                add_months(start.year as int, start.month as int, k).0,
                add_months(start.year as int, start.month as int, k).1,
            )
        },
{
    let (y, m) = add_months(start.year as int, start.month as int, k);
    lemma_div_mod_shift(start.year as int, start.month as int - 1 + k, 12);
    let dt = DateTimeUtc {
        year: y as i32,
        month: m as u32,
        day: boundary_day(start, k) as u32,
        sod: start.sod,
    };
    assert(dt.valid());
    assert(dt.unix_seconds() == boundary_at(start, k));
    lemma_datetime_of_unique(dt);
}

/// Day clamp: for a start on the 31st, the first boundary falls on the last
/// day of the month after the start month.
pub proof fn lemma_day_clamp(start: DateTimeUtc)
    requires
        start.valid(),
        start.day == 31,
        boundary_fits(start, 1),
    ensures
        ({
            let (y, m) = add_months(start.year as int, start.month as int, 1);
            &&& datetime_of(boundary_at(start, 1)).day == month_length(y, m)
            &&& start.month < 12 ==> y == start.year && m == start.month + 1
            &&& start.month == 12 ==> y == start.year + 1 && m == 1
        }),
{
    lemma_boundary_date(start, 1);
}

/// The month index never goes down as time goes on.
pub proof fn lemma_month_index_monotonic(start_ts: i64, t1: i64, t2: i64)
    requires
        schedule_start_valid(start_ts),
        start_ts <= t1 <= t2,
    ensures
        month_index_spec(t1, start_ts) is Ok,
        month_index_spec(t2, start_ts) is Ok,
        month_index_spec(t1, start_ts)->Ok_0 <= month_index_spec(t2, start_ts)->Ok_0,
{
    let start = datetime_of(start_ts as int);
    lemma_month_index_value(t1, start_ts);
    lemma_month_index_value(t2, start_ts);
    lemma_reached_monotonic(start, t1 as int, t2 as int, 12);
}

/// At a later time at least as many boundaries have been reached.
pub proof fn lemma_reached_monotonic(start: DateTimeUtc, t1: int, t2: int, limit: nat)
    requires
        t1 <= t2,
    ensures
        last_boundary_reached(start, t1, limit) <= last_boundary_reached(start, t2, limit),
    decreases limit,
{
    if limit > 0 {
        lemma_reached_monotonic(start, t1, t2, (limit - 1) as nat);
        lemma_reached_at_most(start, t1, (limit - 1) as nat);
    }
}

} // verus!
