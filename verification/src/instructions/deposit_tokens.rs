//! Funding the vault before the schedule starts.

use vstd::prelude::*;
use crate::error::VestingError;
use crate::pubkey::Pubkey;
use crate::state::schedule_state::ScheduleState;
use crate::state::token_account::TokenAccount;

verus! {

/// The accounts of a deposit.
#[derive(Clone, Copy, Debug, PartialEq, Eq)]
pub struct DepositTokens {
    /// The schedule.
    pub schedule_state: ScheduleState,
    /// The vault that the tokens go to, as it stands before the deposit.
    pub vault: TokenAccount,
    /// The token account of the admin that the tokens leave.
    pub admin_token_account: TokenAccount,
    /// The signer, who must be the admin.
    pub admin: Pubkey,
}

/// Record of a deposit.
#[derive(Clone, Copy, Debug, PartialEq, Eq)]
pub struct TokensDeposited {
    /// The admin who deposited.
    pub admin: Pubkey,
    /// Amount moved into the vault.
    pub amount: u64,
    /// Balance of the vault after the deposit.
    pub vault_balance: u64,
}

/// What a deposit decides.
///
/// The amount must be more than zero, the signer must be the admin, and the
/// schedule must not have started. The vault and the source must be of the
/// schedule's mint, and the source must belong to the admin. With the deposit
/// the vault must not hold more than the total supply.
pub open spec fn deposit_tokens_spec(ctx: DepositTokens, amount: u64, now_ts: i64) -> Result<
    TokensDeposited,
    VestingError,
> {
    let state = ctx.schedule_state;
    if amount == 0 {
        Err(VestingError::InvalidConfig)
    } else if ctx.admin != state.admin {
        Err(VestingError::UnauthorizedAdmin)
    } else if now_ts >= state.start_ts {
        Err(VestingError::DepositAfterStart)
    } else if ctx.vault.mint != state.mint || ctx.admin_token_account.mint != state.mint {
        Err(VestingError::InvalidTokenMint)
    } else if ctx.admin_token_account.owner != ctx.admin {
        Err(VestingError::InvalidTokenAccount)
    } else if ctx.vault.amount + amount > state.total_supply {
        Err(VestingError::OverDeposit)
    } else {
        Ok(
            TokensDeposited {
                admin: state.admin,
                amount,
                vault_balance: (ctx.vault.amount + amount) as u64,
            },
        )
    }
}

/// Decides on a deposit of `amount` at `now_ts`. Changes nothing.
///
/// Returns the record of the deposit, whose amount is to be moved from the
/// admin's token account into the vault; the record holds the balance that
/// the vault has once the amount has arrived.
pub fn deposit_tokens(ctx: &DepositTokens, amount: u64, now_ts: i64) -> (res: Result<
    TokensDeposited,
    VestingError,
>)
    ensures
        res == deposit_tokens_spec(*ctx, amount, now_ts),
        res matches Ok(event) ==> event.vault_balance <= ctx.schedule_state.total_supply,
{
    let state = ctx.schedule_state;
    if amount == 0 {
        return Err(VestingError::InvalidConfig);
    }
    if !(ctx.admin == state.admin) {
        return Err(VestingError::UnauthorizedAdmin);
    }
    if now_ts >= state.start_ts {
        return Err(VestingError::DepositAfterStart);
    }
    if !(ctx.vault.mint == state.mint) || !(ctx.admin_token_account.mint == state.mint) {
        return Err(VestingError::InvalidTokenMint);
    }
    if !(ctx.admin_token_account.owner == ctx.admin) {
        return Err(VestingError::InvalidTokenAccount);
    }
    let post: u128 = ctx.vault.amount as u128 + amount as u128;
    if post > state.total_supply as u128 {
        return Err(VestingError::OverDeposit);
    }
    Ok(TokensDeposited { admin: state.admin, amount, vault_balance: post as u64 })
}

} // verus!
