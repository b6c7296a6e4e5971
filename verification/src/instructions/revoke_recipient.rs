//! Revoking a recipient.

use vstd::prelude::*;
use crate::error::VestingError;
use crate::invariants::{
    invariants_kept, lemma_recipient_index_is_first, lemma_sum_allocations_update,
    lemma_sum_released_update, schedule_consistent,
};
use crate::pubkey::Pubkey;
use crate::state::recipients::{
    active_len, find_recipient, recipient_index, RecipientEntry, Recipients,
};
use crate::state::schedule_state::ScheduleState;

verus! {

/// The accounts for revoking a recipient.
#[derive(Clone, Copy, Debug, PartialEq, Eq)]
pub struct RevokeRecipient {
    /// The schedule.
    pub schedule_state: ScheduleState,
    /// The list of recipients.
    pub recipients: Recipients,
    /// The signer, who must be the admin.
    pub admin: Pubkey,
}

/// Record of the revoking of a recipient.
#[derive(Clone, Copy, Debug, PartialEq, Eq)]
pub struct RecipientRevoked {
    /// The admin who revoked.
    pub admin: Pubkey,
    /// Wallet of the recipient.
    pub wallet: Pubkey,
}

/// What revoking decides, and the slot that it marks: the signer must be the
/// admin, the wallet must be in the list, and its recipient must not be
/// revoked already.
pub open spec fn revoke_recipient_spec(ctx: RevokeRecipient, wallet: Pubkey) -> Result<
    int,
    VestingError,
> {
    if ctx.admin != ctx.schedule_state.admin {
        Err(VestingError::UnauthorizedAdmin)
    } else {
        match recipient_index(
            ctx.recipients.active(ctx.schedule_state.recipient_count),
            wallet,
        ) {
            None => Err(VestingError::RecipientNotFound),
            Some(i) => if ctx.recipients@[i].revoked != 0 {
                Err(VestingError::RecipientRevoked)
            } else {
                Ok(i)
            },
        }
    }
}

/// Marking a slot in use as revoked keeps the invariants, at any time.
pub proof fn lemma_revoke_keeps_invariants(
    state: ScheduleState,
    slots: Seq<RecipientEntry>,
    i: int,
    now_ts: i64,
)
    requires
        slots.len() == 35,
        0 <= i < active_len(state.recipient_count),
    ensures
        invariants_kept(
            state,
            slots,
            state,
            slots.update(i, RecipientEntry { revoked: 1, ..slots[i] }),
            now_ts,
        ),
{
    let n = active_len(state.recipient_count);
    let entry = RecipientEntry { revoked: 1, ..slots[i] };
    let after = slots.update(i, entry);
    if schedule_consistent(state, slots) {
        let active = slots.take(n);
        assert(after.take(n) =~= active.update(i, entry));
        lemma_sum_released_update(active, i, entry);
        lemma_sum_allocations_update(active, i, entry);
        assert(active[i].consistent());
        assert forall|j: int| 0 <= j < after.take(n).len() implies (#[trigger] after.take(
            n,
        )[j]).consistent() by {
            if j != i {
                assert(active[j].consistent());
            }
        }
        assert forall|j: int, k: int| 0 <= j < k < after.take(n).len() implies (
        #[trigger] after.take(n)[j]).wallet != (#[trigger] after.take(n)[k]).wallet by {
            assert(active[j].wallet != active[k].wallet);
        }
    }
}

/// Revokes the recipient with the given wallet: it receives nothing from now
/// on, and keeps what it has received. Revoking cannot be undone. On an error
/// nothing changes.
pub fn revoke_recipient(ctx: &mut RevokeRecipient, wallet: Pubkey) -> (res: Result<
    RecipientRevoked,
    VestingError,
>)
    ensures
        match revoke_recipient_spec(*old(ctx), wallet) {
            Err(e) => res == Err::<RecipientRevoked, VestingError>(e) && *final(ctx) == *old(ctx),
            Ok(i) => {
                &&& res == Ok::<RecipientRevoked, VestingError>(
                    RecipientRevoked { admin: old(ctx).schedule_state.admin, wallet },
                )
                &&& 0 <= i < active_len(old(ctx).schedule_state.recipient_count)
                &&& final(ctx).recipients@ == old(ctx).recipients@.update(
                    i,
                    RecipientEntry { revoked: 1, ..old(ctx).recipients@[i] },
                )
                &&& final(ctx).schedule_state == old(ctx).schedule_state
                &&& final(ctx).admin == old(ctx).admin
            },
        },
        forall|now_ts: i64| #[trigger]
            invariants_kept(
                old(ctx).schedule_state,
                old(ctx).recipients@,
                final(ctx).schedule_state,
                final(ctx).recipients@,
                now_ts,
            ),
{
    if !(ctx.admin == ctx.schedule_state.admin) {
        return Err(VestingError::UnauthorizedAdmin);
    }
    let index: usize = match find_recipient(
        &ctx.recipients,
        ctx.schedule_state.recipient_count,
        &wallet,
    ) {
        Some(i) => i,
        None => {
            return Err(VestingError::RecipientNotFound);
        },
    };
    let mut entry = ctx.recipients.entries[index];
    if entry.revoked != 0 {
        return Err(VestingError::RecipientRevoked);
    }
    entry.revoked = 1;
    proof {
        lemma_recipient_index_is_first(
            ctx.recipients.active(ctx.schedule_state.recipient_count),
            wallet,
            index as int,
        );
        assert forall|now_ts: i64| #[trigger]
            invariants_kept(
                ctx.schedule_state,
                ctx.recipients@,
                ctx.schedule_state,
                ctx.recipients@.update(index as int, entry),
                now_ts,
            ) by {
            lemma_revoke_keeps_invariants(
                ctx.schedule_state,
                ctx.recipients@,
                index as int,
                now_ts,
            );
        }
    }
    let mut recipients = ctx.recipients;
    recipients.entries[index] = entry;
    ctx.recipients = recipients;
    Ok(RecipientRevoked { admin: ctx.schedule_state.admin, wallet })
}

} // verus!
