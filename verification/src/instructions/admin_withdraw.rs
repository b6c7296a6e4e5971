//! Withdrawal from the vault by the admin.

use vstd::prelude::*;
use crate::error::VestingError;
use crate::pubkey::Pubkey;
use crate::state::recipients::Recipients;
use crate::state::schedule_state::ScheduleState;
use crate::state::token_account::TokenAccount;

verus! {

/// The accounts of a withdrawal by the admin.
#[derive(Clone, Copy, Debug, PartialEq, Eq)]
pub struct AdminWithdraw {
    /// The schedule.
    pub schedule_state: ScheduleState,
    /// The list of recipients.
    pub recipients: Recipients,
    /// The vault that the tokens leave.
    pub vault: TokenAccount,
    /// The token account that the tokens go to.
    pub admin_destination: TokenAccount,
    /// Address of the mint account that was handed in.
    pub mint: Pubkey,
    /// The signer, who must be the admin.
    pub admin: Pubkey,
}

/// Record of a withdrawal by the admin.
#[derive(Clone, Copy, Debug, PartialEq, Eq)]
pub struct AdminWithdrawn {
    /// The admin who withdrew.
    pub admin: Pubkey,
    /// Amount moved out of the vault.
    pub amount: u64,
    /// Token of the caller, handed back as it came.
    pub query_id: u64,
}

/// What a withdrawal decides.
///
/// The signer must be the admin. The mint account, the vault and the
/// destination must be of the schedule's mint, the destination must belong to
/// the admin, and the vault must hold the amount. Nothing else is asked: a
/// withdrawal is accepted at any time and for any amount that the vault
/// holds, zero included, also where it leaves the vault short of what the
/// recipients are owed.
pub open spec fn admin_withdraw_spec(ctx: AdminWithdraw, amount: u64, query_id: u64) -> Result<
    AdminWithdrawn,
    VestingError,
> {
    let state = ctx.schedule_state;
    if ctx.admin != state.admin {
        Err(VestingError::UnauthorizedAdmin)
    } else if ctx.mint != state.mint || ctx.vault.mint != state.mint
        || ctx.admin_destination.mint != state.mint {
        Err(VestingError::InvalidTokenMint)
    } else if ctx.admin_destination.owner != ctx.admin {
        Err(VestingError::InvalidTokenAccount)
    } else if ctx.vault.amount < amount {
        Err(VestingError::InsufficientVaultBalance)
    } else {
        Ok(AdminWithdrawn { admin: state.admin, amount, query_id })
    }
}

/// A withdrawal by the admin is unconditional: with the admin signing and
/// the accounts in order, every amount that the vault holds is granted,
/// whatever the stage of the schedule, whether it is sealed or paused, and
/// whatever has been released. More than the vault holds is refused.
pub proof fn lemma_withdraw_unconditional(ctx: AdminWithdraw, amount: u64, query_id: u64)
    requires
        ctx.admin == ctx.schedule_state.admin,
        ctx.mint == ctx.schedule_state.mint,
        ctx.vault.mint == ctx.schedule_state.mint,
        ctx.admin_destination.mint == ctx.schedule_state.mint,
        ctx.admin_destination.owner == ctx.admin,
    ensures
        amount <= ctx.vault.amount ==> admin_withdraw_spec(ctx, amount, query_id) == Ok::<
            AdminWithdrawn,
            VestingError,
        >(AdminWithdrawn { admin: ctx.schedule_state.admin, amount, query_id }),
        amount > ctx.vault.amount ==> admin_withdraw_spec(ctx, amount, query_id) == Err::<
            AdminWithdrawn,
            VestingError,
        >(VestingError::InsufficientVaultBalance),
{
}

/// Decides on a withdrawal of `amount`. Changes nothing.
///
/// Returns the record of the withdrawal, whose amount is to be moved from the
/// vault to the destination. Where the amount is zero there is nothing to
/// move.
pub fn admin_withdraw(ctx: &AdminWithdraw, amount: u64, query_id: u64) -> (res: Result<
    AdminWithdrawn,
    VestingError,
>)
    ensures
        res == admin_withdraw_spec(*ctx, amount, query_id),
        res matches Ok(event) ==> event.amount == amount && event.amount <= ctx.vault.amount
            && event.query_id == query_id,
{
    let state = ctx.schedule_state;
    if !(ctx.admin == state.admin) {
        return Err(VestingError::UnauthorizedAdmin);
    }
    if !(ctx.mint == state.mint) || !(ctx.vault.mint == state.mint) || !(
    ctx.admin_destination.mint == state.mint) {
        return Err(VestingError::InvalidTokenMint);
    }
    if !(ctx.admin_destination.owner == ctx.admin) {
        return Err(VestingError::InvalidTokenAccount);
    }
    if ctx.vault.amount < amount {
        return Err(VestingError::InsufficientVaultBalance);
    }
    Ok(AdminWithdrawn { admin: state.admin, amount, query_id })
}

} // verus!
