//! Program-wide constants.

use vstd::prelude::*;

verus! {

/// Largest number of recipients the recipients list can hold.
pub const MAX_RECIPIENTS: usize = 35;

/// Largest number of recipients one batch release may name.
pub const MAX_BATCH_RELEASE: usize = 5;

/// Vesting duration in calendar months.
pub const DURATION_MONTHS: u8 = 12;

/// Seconds per UTC day.
pub const SECONDS_PER_DAY: i64 = 86_400;

} // verus!
