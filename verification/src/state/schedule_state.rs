//! The state of the one vesting schedule of a deployment.

use vstd::prelude::*;
use crate::pubkey::Pubkey;

verus! {

/// The vesting schedule: its token, its authorities, its time frame and the
/// running totals.
#[derive(Clone, Copy, Debug, PartialEq, Eq)]
pub struct ScheduleState {
    /// Mint of the token that is vested.
    pub mint: Pubkey,
    /// Authority over the configuration.
    pub admin: Pubkey,
    /// Authority over releases.
    pub distributor: Pubkey,
    /// Start of the vesting period, in Unix seconds (UTC).
    pub start_ts: i64,
    /// Length of the vesting period in months: always 12.
    pub duration_months: u8,
    /// While set, releases are refused; accrual goes on.
    pub paused: bool,
    /// Total amount escrowed for vesting.
    pub total_supply: u64,
    /// Total amount released so far: the sum of what each recipient received.
    pub released_supply: u64,
    /// Number of recipients in the list, at most 35.
    pub recipient_count: u8,
    /// Once set, the list of recipients is frozen.
    pub sealed: bool,
}

impl ScheduleState {
    /// Size in bytes of the stored form of the state.
    pub const SIZE: usize = 124;
}

} // verus!
