//! Sweeping what is left in the vault once the vesting period is over.

use vstd::prelude::*;
use crate::constants::MAX_RECIPIENTS;
use crate::error::VestingError;
use crate::pubkey::Pubkey;
use crate::state::recipients::{active_len, RecipientEntry, Recipients};
use crate::state::schedule_state::ScheduleState;
use crate::state::token_account::TokenAccount;
use crate::utils::time::{is_after_vesting_end, is_after_vesting_end_spec};

verus! {

/// The accounts of a sweep.
#[derive(Clone, Copy, Debug, PartialEq, Eq)]
pub struct SweepDustAfterEnd {
    /// The schedule.
    pub schedule_state: ScheduleState,
    /// The list of recipients.
    pub recipients: Recipients,
    /// The vault that the tokens leave.
    pub vault: TokenAccount,
    /// The token account that the tokens go to.
    pub admin_destination: TokenAccount,
    /// Address of the mint account that was handed in.
    pub mint: Pubkey,
    /// The signer, who must be the admin.
    pub admin: Pubkey,
}

/// Record of a sweep.
#[derive(Clone, Copy, Debug, PartialEq, Eq)]
pub struct DustSwept {
    /// The admin who swept.
    pub admin: Pubkey,
    /// Amount moved out of the vault.
    pub amount: u64,
}

/// Whether the entry is settled: its recipient is revoked, or has received
/// its whole allocation.
pub open spec fn entry_settled(entry: RecipientEntry) -> bool {
    entry.revoked != 0 || entry.released_amount == entry.allocation
}

/// Whether every entry is settled.
pub open spec fn all_settled(entries: Seq<RecipientEntry>) -> bool {
    forall|i: int| 0 <= i < entries.len() ==> entry_settled(#[trigger] entries[i])
}

/// Whether each of the first `count` slots is settled.
pub fn recipients_settled(recipients: &Recipients, count: u8) -> (settled: bool)
    ensures
        settled == all_settled(recipients.active(count)),
{
    let n: usize = if count as usize <= MAX_RECIPIENTS { count as usize } else { MAX_RECIPIENTS };
    let mut i: usize = 0;
    while i < n
        invariant
            i <= n,
            n == active_len(count),
            forall|j: int| 0 <= j < i ==> entry_settled(#[trigger] recipients.active(count)[j]),
        decreases n - i,
    {
        let entry = recipients.entries[i];
        if entry.revoked == 0 && entry.released_amount != entry.allocation {
            assert(!entry_settled(recipients.active(count)[i as int]));
            return false;
        }
        i += 1;
    }
    true
}

/// What a sweep decides.
///
/// The signer must be the admin, the vesting period must be over, and every
/// recipient must be settled. The mint account, the vault and the destination
/// must be of the schedule's mint, and the destination must belong to the
/// admin. The sweep takes all that the vault holds, which may be nothing.
pub open spec fn sweep_dust_after_end_spec(ctx: SweepDustAfterEnd, now_ts: i64) -> Result<
    DustSwept,
    VestingError,
> {
    let state = ctx.schedule_state;
    if ctx.admin != state.admin {
        Err(VestingError::UnauthorizedAdmin)
    } else {
        match is_after_vesting_end_spec(now_ts, state.start_ts) {
            Err(e) => Err(e),
            Ok(ended) => if !ended {
                Err(VestingError::SweepBeforeEnd)
            } else if !all_settled(ctx.recipients.active(state.recipient_count)) {
                Err(VestingError::SweepNotAllowedOutstanding)
            } else if ctx.mint != state.mint || ctx.vault.mint != state.mint
                || ctx.admin_destination.mint != state.mint {
                Err(VestingError::InvalidTokenMint)
            } else if ctx.admin_destination.owner != ctx.admin {
                Err(VestingError::InvalidTokenAccount)
            } else {
                Ok(DustSwept { admin: state.admin, amount: ctx.vault.amount })
            },
        }
    }
}

/// Decides on a sweep at `now_ts`. Changes nothing.
///
/// Returns the record of the sweep, whose amount is to be moved from the vault
/// to the destination. Where the vault is empty the amount is zero, and there
/// is nothing to move.
pub fn sweep_dust_after_end(ctx: &SweepDustAfterEnd, now_ts: i64) -> (res: Result<
    DustSwept,
    VestingError,
>)
    ensures
        res == sweep_dust_after_end_spec(*ctx, now_ts),
{
    let state = ctx.schedule_state;
    if !(ctx.admin == state.admin) {
        return Err(VestingError::UnauthorizedAdmin);
    }
    if !is_after_vesting_end(now_ts, state.start_ts)? {
        return Err(VestingError::SweepBeforeEnd);
    }
    if !recipients_settled(&ctx.recipients, state.recipient_count) {
        return Err(VestingError::SweepNotAllowedOutstanding);
    }
    if !(ctx.mint == state.mint) || !(ctx.vault.mint == state.mint) || !(
    ctx.admin_destination.mint == state.mint) {
        return Err(VestingError::InvalidTokenMint);
    }
    if !(ctx.admin_destination.owner == ctx.admin) {
        return Err(VestingError::InvalidTokenAccount);
    }
    Ok(DustSwept { admin: state.admin, amount: ctx.vault.amount })
}

} // verus!
