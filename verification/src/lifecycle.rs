//! The stages that a schedule passes through, and the operations that each
//! stage admits.
//!
//! The stage is not stored: it follows from the sealed flag, the pause flag,
//! and where the time stands to the start and to the end of the vesting
//! period. A schedule is being configured until its list is sealed; a sealed
//! schedule waits for its start, then runs, unless it is paused, until the
//! vesting period has ended.

use vstd::prelude::*;
use crate::error::VestingError;
use crate::instructions::add_recipients::{add_recipients_spec, AddRecipients};
use crate::instructions::batch_release::{
    batch_fold, batch_release_spec, items_total, BatchRelease,
};
use crate::instructions::deposit_tokens::{deposit_tokens_spec, DepositTokens};
use crate::instructions::pause::{pause_spec, Pause};
use crate::instructions::release_to_recipient::{
    destination_error, lemma_plan_release_spec, lemma_release_pays_accrual, planned_amount,
    release_to_recipient_spec, slots_after_plan, ReleasePlan, ReleaseToRecipient,
};
use crate::instructions::unpause::{unpause_spec, Unpause};
use crate::state::recipients::recipient_index;
use crate::utils::accrual::vested;
use crate::instructions::sweep_dust_after_end::{
    all_settled, sweep_dust_after_end_spec, SweepDustAfterEnd,
};
use crate::pubkey::Pubkey;
use crate::state::recipients::{RecipientEntry, RecipientInput};
use crate::state::schedule_state::ScheduleState;
use crate::state::token_account::TokenAccount;
use crate::utils::time::{is_after_vesting_end_spec, month_index_spec};

verus! {

/// A stage of a schedule.
#[derive(Clone, Copy, Debug, PartialEq, Eq, Structural)]
pub enum Stage {
    /// The list of recipients is open.
    Configuring,
    /// The list is sealed, and the vesting period has not started.
    SealedBeforeStart,
    /// The vesting period is under way, and releases are accepted.
    Running,
    /// The vesting period is under way, and releases are refused.
    Paused,
    /// The vesting period is over.
    Ended,
}

/// Whether the vesting period is over at `now_ts`.
pub open spec fn ended(state: ScheduleState, now_ts: i64) -> bool {
    is_after_vesting_end_spec(now_ts, state.start_ts) == Ok::<bool, VestingError>(true)
}

/// The stage of the schedule at `now_ts`.
pub open spec fn stage(state: ScheduleState, now_ts: i64) -> Stage {
    if ended(state, now_ts) {
        Stage::Ended
    } else if !state.sealed {
        Stage::Configuring
    } else if now_ts < state.start_ts {
        Stage::SealedBeforeStart
    } else if state.paused {
        Stage::Paused
    } else {
        Stage::Running
    }
}

/// Recipients are added, and the list is sealed, only while the list is not
/// sealed; once it is sealed there is no way back.
pub proof fn lemma_add_needs_open_list(ctx: AddRecipients, inputs: Seq<RecipientInput>, seal: bool)
    requires
        add_recipients_spec(ctx, inputs, seal) is Ok,
    ensures
        !ctx.schedule_state.sealed,
        add_recipients_spec(ctx, inputs, seal)->Ok_0.state.sealed == seal,
{
}

/// Tokens are deposited only before the start of the vesting period.
pub proof fn lemma_deposit_needs_time_before_start(ctx: DepositTokens, amount: u64, now_ts: i64)
    requires
        deposit_tokens_spec(ctx, amount, now_ts) is Ok,
    ensures
        now_ts < ctx.schedule_state.start_ts,
        !ended(ctx.schedule_state, now_ts),
{
}

/// Tokens are released only from a sealed schedule that is not paused, at or
/// after its start: while it is running, or after the end.
pub proof fn lemma_release_needs_running(
    ctx: ReleaseToRecipient,
    wallet: Pubkey,
    now_ts: i64,
    expected_ata: Option<Seq<u8>>,
    plan: ReleasePlan,
)
    requires
        release_to_recipient_spec(ctx, wallet, now_ts, expected_ata) == Ok::<
            Option<ReleasePlan>,
            VestingError,
        >(Some(plan)),
    ensures
        ctx.schedule_state.sealed,
        !ctx.schedule_state.paused,
        now_ts >= ctx.schedule_state.start_ts,
        stage(ctx.schedule_state, now_ts) == Stage::Running || stage(ctx.schedule_state, now_ts)
            == Stage::Ended,
{
    lemma_plan_release_spec(
        ctx.schedule_state,
        ctx.recipients@,
        ctx.vault.amount,
        wallet,
        now_ts,
        plan,
    );
}

/// A batch is accepted only from a sealed schedule that is not paused, and
/// only at or after the start does it release anything.
pub proof fn lemma_batch_needs_running(
    ctx: BatchRelease,
    wallets: Seq<Pubkey>,
    destinations: Seq<TokenAccount>,
    now_ts: i64,
)
    requires
        batch_release_spec(ctx, wallets, destinations, now_ts) is Ok,
    ensures
        ctx.schedule_state.sealed,
        !ctx.schedule_state.paused,
        now_ts < ctx.schedule_state.start_ts ==> items_total(
            batch_release_spec(ctx, wallets, destinations, now_ts)->Ok_0.items,
        ) == 0,
{
    if now_ts < ctx.schedule_state.start_ts {
        lemma_batch_before_start(
            ctx.schedule_state,
            ctx.recipients@,
            ctx.vault.amount,
            wallets,
            destinations,
            now_ts,
            wallets.len(),
        );
    }
}

/// Before the start a batch releases nothing: each of its wallets is passed
/// over or fails.
pub proof fn lemma_batch_before_start(
    state: ScheduleState,
    slots: Seq<RecipientEntry>,
    vault_balance: u64,
    wallets: Seq<Pubkey>,
    destinations: Seq<TokenAccount>,
    now_ts: i64,
    n: nat,
)
    requires
        slots.len() == 35,
        now_ts < state.start_ts,
        batch_fold(
            state,
            slots,
            vault_balance,
            wallets,
            destinations,
            now_ts,
            n,
        ) is Ok,
    ensures
        ({
            let p = batch_fold(
                state,
                slots,
                vault_balance,
                wallets,
                destinations,
                now_ts,
                n,
            )->Ok_0;
            &&& items_total(p.items) == 0
            &&& p.state == state
            &&& p.entries == slots
        }),
    decreases n,
{
    if n > 0 {
        lemma_batch_before_start(
            state,
            slots,
            vault_balance,
            wallets,
            destinations,
            now_ts,
            (n - 1) as nat,
        );
        let q = batch_fold(
            state,
            slots,
            vault_balance,
            wallets,
            destinations,
            now_ts,
            (n - 1) as nat,
        )->Ok_0;
        let p = batch_fold(
            state,
            slots,
            vault_balance,
            wallets,
            destinations,
            now_ts,
            n,
        )->Ok_0;
        assert(p.items.drop_last() =~= q.items);
        assert(month_index_spec(now_ts, state.start_ts) is Err);
    }
}

/// A pause holds releases back and does not stop accrual.
///
/// While the schedule is paused a release is refused. Pausing and unpausing
/// leave the schedule as it was. So a release after the pause, where its
/// standing conditions are met, moves all that has vested by then less what
/// the recipient had received before the pause: for a recipient that had
/// received `R` and a release in month 7, seven monthly amounts less `R`, in
/// one transfer.
pub proof fn lemma_release_after_pause(
    ctx: ReleaseToRecipient,
    wallet: Pubkey,
    paused_ts: i64,
    now_ts: i64,
    expected_ata: Option<Seq<u8>>,
    i: int,
    k: u8,
)
    requires
        ctx.schedule_state.sealed,
        !ctx.schedule_state.paused,
        ctx.distributor == ctx.schedule_state.distributor,
        ctx.mint == ctx.schedule_state.mint,
        ctx.vault.mint == ctx.schedule_state.mint,
        destination_error(ctx.schedule_state.mint, wallet, ctx.recipient_ata, expected_ata)
            is None,
        ctx.schedule_state.released_supply == 0 ==> ctx.vault.amount
            == ctx.schedule_state.total_supply,
        recipient_index(
            ctx.recipients.active(ctx.schedule_state.recipient_count),
            wallet,
        ) == Some(i),
        ctx.recipients@[i].revoked == 0,
        month_index_spec(now_ts, ctx.schedule_state.start_ts) == Ok::<u8, VestingError>(k),
        ctx.recipients@[i].released_amount <= vested(
            ctx.recipients@[i].monthly_amount as int,
            ctx.recipients@[i].final_amount as int,
            k as int,
        ) <= u64::MAX,
        vested(
            ctx.recipients@[i].monthly_amount as int,
            ctx.recipients@[i].final_amount as int,
            k as int,
        ) - ctx.recipients@[i].released_amount <= ctx.vault.amount,
        ctx.schedule_state.released_supply + vested(
            ctx.recipients@[i].monthly_amount as int,
            ctx.recipients@[i].final_amount as int,
            k as int,
        ) - ctx.recipients@[i].released_amount <= u64::MAX,
    ensures
        ({
            let state = ctx.schedule_state;
            let paused = ScheduleState { paused: true, ..state };
            let due = vested(
                ctx.recipients@[i].monthly_amount as int,
                ctx.recipients@[i].final_amount as int,
                k as int,
            ) - ctx.recipients@[i].released_amount;
            let decided = release_to_recipient_spec(ctx, wallet, now_ts, expected_ata);
            &&& pause_spec(Pause { schedule_state: state, admin: state.admin }) is Ok
            &&& release_to_recipient_spec(
                ReleaseToRecipient { schedule_state: paused, ..ctx },
                wallet,
                paused_ts,
                expected_ata,
            ) == Err::<Option<ReleasePlan>, VestingError>(VestingError::SchedulePaused)
            &&& unpause_spec(Unpause { schedule_state: paused, admin: state.admin }) is Ok
            &&& (ScheduleState { paused: false, ..paused }) == state
            &&& decided is Ok
            &&& planned_amount(decided->Ok_0) == due
            &&& slots_after_plan(ctx.recipients@, decided->Ok_0)[i].released_amount == vested(
                ctx.recipients@[i].monthly_amount as int,
                ctx.recipients@[i].final_amount as int,
                k as int,
            )
            &&& k == 7 ==> planned_amount(decided->Ok_0) == 7 * ctx.recipients@[i].monthly_amount
                - ctx.recipients@[i].released_amount
        }),
{
    lemma_release_pays_accrual(ctx, wallet, now_ts, expected_ata, i, k);
}

/// The vault is swept only after the end of the vesting period, and only once
/// every recipient is settled.
pub proof fn lemma_sweep_needs_end(ctx: SweepDustAfterEnd, now_ts: i64)
    requires
        sweep_dust_after_end_spec(ctx, now_ts) is Ok,
    ensures
        stage(ctx.schedule_state, now_ts) == Stage::Ended,
        all_settled(ctx.recipients.active(ctx.schedule_state.recipient_count)),
        sweep_dust_after_end_spec(ctx, now_ts)->Ok_0.amount == ctx.vault.amount,
{
}

} // verus!
