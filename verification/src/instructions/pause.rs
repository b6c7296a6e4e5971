//! Pausing the schedule.

use vstd::prelude::*;
use crate::error::VestingError;
use crate::invariants::{invariants_kept, lemma_authority_change_keeps};
use crate::state::recipients::RecipientEntry;
use crate::pubkey::Pubkey;
use crate::state::schedule_state::ScheduleState;

verus! {

/// The accounts for pausing the schedule.
#[derive(Clone, Copy, Debug, PartialEq, Eq)]
pub struct Pause {
    /// The schedule.
    pub schedule_state: ScheduleState,
    /// The signer, who must be the admin.
    pub admin: Pubkey,
}

/// Record of the pausing of the schedule.
#[derive(Clone, Copy, Debug, PartialEq, Eq)]
pub struct SchedulePaused {
    /// The admin who paused it.
    pub admin: Pubkey,
}

/// What pausing decides: the signer must be the admin, and the schedule must
/// not be paused already.
pub open spec fn pause_spec(ctx: Pause) -> Result<SchedulePaused, VestingError> {
    if ctx.admin != ctx.schedule_state.admin {
        Err(VestingError::UnauthorizedAdmin)
    } else if ctx.schedule_state.paused {
        Err(VestingError::SchedulePaused)
    } else {
        Ok(SchedulePaused { admin: ctx.schedule_state.admin })
    }
}

/// Pauses the schedule: releases are refused until it is unpaused, while the
/// allocations go on vesting. On an error nothing changes.
pub fn pause(ctx: &mut Pause) -> (res: Result<SchedulePaused, VestingError>)
    ensures
        res == pause_spec(*old(ctx)),
        res is Err ==> *final(ctx) == *old(ctx),
        res is Ok ==> *final(ctx) == (Pause {
            schedule_state: ScheduleState { paused: true, ..old(ctx).schedule_state },
            ..*old(ctx)
        }),
        forall|slots: Seq<RecipientEntry>, now_ts: i64| #[trigger]
            invariants_kept(
                old(ctx).schedule_state,
                slots,
                final(ctx).schedule_state,
                slots,
                now_ts,
            ),
{
    proof {
        assert forall|slots: Seq<RecipientEntry>, now_ts: i64| #[trigger]
            invariants_kept(ctx.schedule_state, slots, ctx.schedule_state, slots, now_ts) by {
            lemma_authority_change_keeps(ctx.schedule_state, ctx.schedule_state, slots, now_ts);
        }
    }
    if !(ctx.admin == ctx.schedule_state.admin) {
        return Err(VestingError::UnauthorizedAdmin);
    }
    if ctx.schedule_state.paused {
        return Err(VestingError::SchedulePaused);
    }
    ctx.schedule_state.paused = true;
    proof {
        assert forall|slots: Seq<RecipientEntry>, now_ts: i64| #[trigger]
            invariants_kept(old(ctx).schedule_state, slots, ctx.schedule_state, slots, now_ts) by {
            lemma_authority_change_keeps(
                old(ctx).schedule_state,
                ctx.schedule_state,
                slots,
                now_ts,
            );
        }
    }
    Ok(SchedulePaused { admin: ctx.schedule_state.admin })
}

} // verus!
