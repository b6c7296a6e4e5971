//! Taking the schedule out of its pause.

use vstd::prelude::*;
use crate::error::VestingError;
use crate::invariants::{invariants_kept, lemma_authority_change_keeps};
use crate::state::recipients::RecipientEntry;
use crate::pubkey::Pubkey;
use crate::state::schedule_state::ScheduleState;

verus! {

/// The accounts for unpausing the schedule.
#[derive(Clone, Copy, Debug, PartialEq, Eq)]
pub struct Unpause {
    /// The schedule.
    pub schedule_state: ScheduleState,
    /// The signer, who must be the admin.
    pub admin: Pubkey,
}

/// Record of the unpausing of the schedule.
#[derive(Clone, Copy, Debug, PartialEq, Eq)]
pub struct ScheduleUnpaused {
    /// The admin who unpaused it.
    pub admin: Pubkey,
}

/// What unpausing decides: the signer must be the admin, and the schedule
/// must be paused.
pub open spec fn unpause_spec(ctx: Unpause) -> Result<ScheduleUnpaused, VestingError> {
    if ctx.admin != ctx.schedule_state.admin {
        Err(VestingError::UnauthorizedAdmin)
    } else if !ctx.schedule_state.paused {
        Err(VestingError::ScheduleNotPaused)
    } else {
        Ok(ScheduleUnpaused { admin: ctx.schedule_state.admin })
    }
}

/// Ends the pause: releases are accepted again, and the next one makes up for
/// the months that passed meanwhile. On an error nothing changes.
pub fn unpause(ctx: &mut Unpause) -> (res: Result<ScheduleUnpaused, VestingError>)
    ensures
        res == unpause_spec(*old(ctx)),
        res is Err ==> *final(ctx) == *old(ctx),
        res is Ok ==> *final(ctx) == (Unpause {
            schedule_state: ScheduleState { paused: false, ..old(ctx).schedule_state },
            ..*old(ctx)
        }),
        forall|slots: Seq<RecipientEntry>, now_ts: i64| #[trigger]
            invariants_kept(
                old(ctx).schedule_state,
                slots,
                final(ctx).schedule_state,
                slots,
                now_ts,
            ),
{
    proof {
        assert forall|slots: Seq<RecipientEntry>, now_ts: i64| #[trigger]
            invariants_kept(ctx.schedule_state, slots, ctx.schedule_state, slots, now_ts) by {
            lemma_authority_change_keeps(ctx.schedule_state, ctx.schedule_state, slots, now_ts);
        }
    }
    if !(ctx.admin == ctx.schedule_state.admin) {
        return Err(VestingError::UnauthorizedAdmin);
    }
    if !ctx.schedule_state.paused {
        return Err(VestingError::ScheduleNotPaused);
    }
    ctx.schedule_state.paused = false;
    proof {
        assert forall|slots: Seq<RecipientEntry>, now_ts: i64| #[trigger]
            invariants_kept(old(ctx).schedule_state, slots, ctx.schedule_state, slots, now_ts) by {
            lemma_authority_change_keeps(
                old(ctx).schedule_state,
                ctx.schedule_state,
                slots,
                now_ts,
            );
        }
    }
    Ok(ScheduleUnpaused { admin: ctx.schedule_state.admin })
}

} // verus!
