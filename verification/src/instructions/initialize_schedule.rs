//! Setting up the schedule.

use vstd::prelude::*;
use crate::constants::DURATION_MONTHS;
use crate::error::VestingError;
use crate::instructions::set_distributor::{check_distributor_for, distributor_allowed};
use crate::invariants::{accrual_bounded, schedule_consistent};
use crate::pubkey::{recipients_address_spec, vault_address_spec, Pubkey};
use crate::state::recipients::Recipients;
use crate::state::schedule_state::ScheduleState;

verus! {

/// The accounts for setting up the schedule. The schedule state and the list
/// of recipients come as the new accounts hold them, and are written over.
#[derive(Clone, Copy, Debug, PartialEq, Eq)]
pub struct InitializeSchedule {
    /// Address of the program that owns the schedule.
    pub program_id: Pubkey,
    /// Address of the schedule state account.
    pub schedule_state_key: Pubkey,
    /// The schedule.
    pub schedule_state: ScheduleState,
    /// The list of recipients.
    pub recipients: Recipients,
    /// Address of the mint of the token to vest.
    pub mint: Pubkey,
    /// The signer, who becomes the admin.
    pub admin: Pubkey,
}

/// Record of the setting up of the schedule.
#[derive(Clone, Copy, Debug, PartialEq, Eq)]
pub struct ScheduleInitialized {
    /// Mint of the token that is vested.
    pub mint: Pubkey,
    /// The admin.
    pub admin: Pubkey,
    /// The distributor.
    pub distributor: Pubkey,
    /// Start of the vesting period.
    pub start_ts: i64,
    /// Total amount to vest.
    pub total_supply: u64,
}

/// The schedule as it is set up: nothing released, no recipients, not paused,
/// not sealed, 12 months long.
pub open spec fn initial_state(
    mint: Pubkey,
    admin: Pubkey,
    distributor: Pubkey,
    start_ts: i64,
    total_supply: u64,
) -> ScheduleState {
    ScheduleState {
        mint,
        admin,
        distributor,
        start_ts,
        duration_months: 12,
        paused: false,
        total_supply,
        released_supply: 0,
        recipient_count: 0,
        sealed: false,
    }
}

/// What setting up the schedule decides: the total supply and the start must
/// be more than zero, the distributor must not be the zero key, and it must be
/// allowed.
pub open spec fn initialize_schedule_spec(
    ctx: InitializeSchedule,
    distributor: Pubkey,
    start_ts: i64,
    total_supply: u64,
) -> Result<ScheduleInitialized, VestingError> {
    if total_supply == 0 {
        Err(VestingError::InvalidConfig)
    } else if start_ts <= 0 {
        Err(VestingError::InvalidTimestamp)
    } else if distributor.is_zero() {
        Err(VestingError::InvalidPubkey)
    } else if !distributor_allowed(
        distributor,
        ctx.admin,
        ctx.schedule_state_key,
        ctx.program_id,
        vault_address_spec(ctx.schedule_state_key, ctx.program_id),
        recipients_address_spec(ctx.schedule_state_key, ctx.program_id),
    ) {
        Err(VestingError::InvalidConfig)
    } else {
        Ok(ScheduleInitialized { mint: ctx.mint, admin: ctx.admin, distributor, start_ts, total_supply })
    }
}

/// Sets up the schedule for the mint and the admin of the accounts, with the
/// given distributor, start and total supply, and an empty list of recipients.
/// On an error nothing changes.
pub fn initialize_schedule(
    ctx: &mut InitializeSchedule,
    distributor: Pubkey,
    start_ts: i64,
    total_supply: u64,
) -> (res: Result<ScheduleInitialized, VestingError>)
    ensures
        res == initialize_schedule_spec(*old(ctx), distributor, start_ts, total_supply),
        res is Err ==> *final(ctx) == *old(ctx),
        res is Ok ==> {
            &&& final(ctx).schedule_state == initial_state(
                old(ctx).mint,
                old(ctx).admin,
                distributor,
                start_ts,
                total_supply,
            )
            &&& forall|i: int| 0 <= i < 35 ==> (#[trigger] final(ctx).recipients@[i]).is_unused()
            &&& final(ctx).program_id == old(ctx).program_id
            &&& final(ctx).schedule_state_key == old(ctx).schedule_state_key
            &&& final(ctx).mint == old(ctx).mint
            &&& final(ctx).admin == old(ctx).admin
            &&& !final(ctx).schedule_state.distributor.is_zero()
            &&& distributor_allowed(
                final(ctx).schedule_state.distributor,
                final(ctx).schedule_state.admin,
                final(ctx).schedule_state_key,
                final(ctx).program_id,
                vault_address_spec(final(ctx).schedule_state_key, final(ctx).program_id),
                recipients_address_spec(final(ctx).schedule_state_key, final(ctx).program_id),
            )
            &&& schedule_consistent(final(ctx).schedule_state, final(ctx).recipients@)
            &&& forall|now_ts: i64| #[trigger]
                accrual_bounded(final(ctx).schedule_state, final(ctx).recipients@, now_ts)
        },
{
    if total_supply == 0 {
        return Err(VestingError::InvalidConfig);
    }
    if start_ts <= 0 {
        return Err(VestingError::InvalidTimestamp);
    }
    if distributor.is_default() {
        return Err(VestingError::InvalidPubkey);
    }
    check_distributor_for(&distributor, &ctx.admin, &ctx.schedule_state_key, &ctx.program_id)?;
    ctx.schedule_state = ScheduleState {
        mint: ctx.mint,
        admin: ctx.admin,
        distributor,
        start_ts,
        duration_months: DURATION_MONTHS,
        paused: false,
        total_supply,
        released_supply: 0,
        recipient_count: 0,
        sealed: false,
    };
    ctx.recipients = Recipients::empty();
    Ok(ScheduleInitialized { mint: ctx.mint, admin: ctx.admin, distributor, start_ts, total_supply })
}

} // verus!
