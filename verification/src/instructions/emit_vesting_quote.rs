//! What a recipient could be released now, without releasing it.

use vstd::prelude::*;
use crate::error::VestingError;
use crate::pubkey::Pubkey;
use crate::state::recipients::{find_recipient, recipient_index, Recipients};
use crate::state::schedule_state::ScheduleState;
use crate::utils::accrual::{
    releasable_amount, releasable_spec, vested_amount, vested_amount_spec,
};
use crate::utils::time::{month_index, month_index_spec};

verus! {

/// The accounts for a quote.
#[derive(Clone, Copy, Debug, PartialEq, Eq)]
pub struct EmitVestingQuote {
    /// The schedule.
    pub schedule_state: ScheduleState,
    /// The list of recipients.
    pub recipients: Recipients,
}

/// A quote: what has vested for a recipient, what it has received, and what
/// could be released to it now.
#[derive(Clone, Copy, Debug, PartialEq, Eq)]
pub struct VestingQuote {
    /// Wallet of the recipient.
    pub wallet: Pubkey,
    /// Month of the schedule at the time of the quote.
    pub month_index: u8,
    /// Amount vested by that month.
    pub vested_amount: u64,
    /// Amount released so far.
    pub released_amount: u64,
    /// Amount that could be released now.
    pub releasable: u64,
}

/// The quote for `wallet` at `now_ts`. It asks neither for a sealed list nor
/// for a signer, and a revoked recipient is quoted like any other.
pub open spec fn emit_vesting_quote_spec(ctx: EmitVestingQuote, wallet: Pubkey, now_ts: i64) -> Result<
    VestingQuote,
    VestingError,
> {
    match month_index_spec(now_ts, ctx.schedule_state.start_ts) {
        Err(e) => Err(e),
        Ok(k) => match recipient_index(
            ctx.recipients.active(ctx.schedule_state.recipient_count),
            wallet,
        ) {
            None => Err(VestingError::RecipientNotFound),
            Some(i) => {
                let entry = ctx.recipients@[i];
                match vested_amount_spec(entry.monthly_amount, entry.final_amount, k) {
                    Err(e) => Err(e),
                    Ok(v) => match releasable_spec(v, entry.released_amount) {
                        Err(e) => Err(e),
                        Ok(releasable) => Ok(
                            VestingQuote {
                                wallet,
                                month_index: k,
                                vested_amount: v,
                                released_amount: entry.released_amount,
                                releasable,
                            },
                        ),
                    },
                }
            },
        }
    }
}

/// Computes the quote for `wallet` at `now_ts`, as a release would compute it.
/// Changes nothing.
pub fn emit_vesting_quote(ctx: &EmitVestingQuote, wallet: Pubkey, now_ts: i64) -> (res: Result<
    VestingQuote,
    VestingError,
>)
    ensures
        res == emit_vesting_quote_spec(*ctx, wallet, now_ts),
{
    let k: u8 = month_index(now_ts, ctx.schedule_state.start_ts)?;
    let index: usize = match find_recipient(
        &ctx.recipients,
        ctx.schedule_state.recipient_count,
        &wallet,
    ) {
        Some(i) => i,
        None => {
            return Err(VestingError::RecipientNotFound);
        },
    };
    let entry = ctx.recipients.entries[index];
    let v: u64 = vested_amount(entry.monthly_amount, entry.final_amount, k)?;
    let releasable: u64 = releasable_amount(v, entry.released_amount)?;
    Ok(
        VestingQuote {
            wallet,
            month_index: k,
            vested_amount: v,
            released_amount: entry.released_amount,
            releasable,
        },
    )
}

} // verus!
