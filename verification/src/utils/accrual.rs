//! How much of an allocation has vested by a given month of the schedule.

use vstd::prelude::*;
use crate::constants::DURATION_MONTHS;
use crate::error::VestingError;

verus! {

/// Amount vested by month `month_index`: the monthly amount for each month of
/// the first eleven, and in the twelfth month eleven monthly amounts and the
/// final amount, which takes up the remainder of the division. A month index
/// above 12 counts as 12.
pub open spec fn vested(monthly: int, final_amount: int, month_index: int) -> int {
    if month_index >= 12 {
        11 * monthly + final_amount
    } else {
        monthly * month_index
    }
}

/// What `vested_amount` returns: the vested amount where it fits `u64`.
pub open spec fn vested_amount_spec(monthly: u64, final_amount: u64, month_index: u8) -> Result<
    u64,
    VestingError,
> {
    let v = vested(monthly as int, final_amount as int, month_index as int);
    if v <= u64::MAX {
        Ok(v as u64)
    } else {
        Err(VestingError::MathOverflow)
    }
}

/// Amount vested by month `month_index`.
///
/// Fails with `MathOverflow` where the amount does not fit `u64`.
pub fn vested_amount(monthly: u64, final_amount: u64, month_index: u8) -> (res: Result<
    u64,
    VestingError,
>)
    ensures
        res == vested_amount_spec(monthly, final_amount, month_index),
{
    let m: u8 = if month_index <= DURATION_MONTHS { month_index } else { DURATION_MONTHS };
    let v: u128 = if m == DURATION_MONTHS {
        (monthly as u128) * 11 + (final_amount as u128)
    } else {
        assert((monthly as u128) * (m as u128) <= 0xffff_ffff_ffff_ffff * 12) by (nonlinear_arith)
            requires
                monthly <= 0xffff_ffff_ffff_ffff,
                m < 12,
        ;
        (monthly as u128) * (m as u128)
    };
    if v > u64::MAX as u128 {
        Err(VestingError::MathOverflow)
    } else {
        Ok(v as u64)
    }
}

/// What `releasable_amount` returns: the vested amount less what has been
/// released. More released than vested is an error.
pub open spec fn releasable_spec(vested: u64, released: u64) -> Result<u64, VestingError> {
    if released <= vested {
        Ok((vested - released) as u64)
    } else {
        Err(VestingError::MathOverflow)
    }
}

/// Amount that can be released now: the vested amount less what has been
/// released.
///
/// Fails with `MathOverflow` where more has been released than has vested:
/// the accounts are then corrupt.
pub fn releasable_amount(vested: u64, released: u64) -> (res: Result<u64, VestingError>)
    ensures
        res == releasable_spec(vested, released),
{
    match vested.checked_sub(released) {
        Some(amount) => Ok(amount),
        None => Err(VestingError::MathOverflow),
    }
}

/// The vested amount never goes down from one month to the next.
pub proof fn lemma_vested_monotonic(monthly: int, final_amount: int, a: int, b: int)
    requires
        0 <= monthly,
        0 <= final_amount,
        0 <= a <= b,
    ensures
        vested(monthly, final_amount, a) <= vested(monthly, final_amount, b),
{
    assert(monthly * a <= monthly * b) by (nonlinear_arith)
        requires
            0 <= monthly,
            0 <= a <= b,
    ;
    if a <= 11 {
        assert(monthly * a <= monthly * 11) by (nonlinear_arith)
            requires
                0 <= monthly,
                0 <= a <= 11,
        ;
    }
}

/// Terminal rule: by month 12 the whole allocation has vested, for the
/// monthly and final amounts of that allocation.
pub proof fn lemma_vested_terminal(allocation: int)
    requires
        0 <= allocation,
    ensures
        vested(allocation / 12, allocation / 12 + allocation % 12, 12) == allocation,
{
}

} // verus!
