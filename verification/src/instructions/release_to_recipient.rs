//! Release of what has vested to one recipient.

use vstd::prelude::*;
use crate::error::VestingError;
use crate::invariants::{
    accrual_bounded, accrued_month, invariants_kept, lemma_recipient_index_is_first,
    lemma_recipient_index_same_wallets, lemma_sum_allocations_update, lemma_sum_released_update,
    schedule_advanced, schedule_consistent,
};
use crate::utils::calendar::datetime_of;
use crate::pubkey::{associated_token_address_spec, expected_ata_address, lemma_pubkey_ext, Pubkey};
use crate::state::recipients::{
    active_len, find_recipient, recipient_index, RecipientEntry, Recipients,
};
use crate::state::schedule_state::ScheduleState;
use crate::state::token_account::TokenAccount;
use crate::utils::accrual::{
    releasable_amount, releasable_spec, vested, vested_amount, vested_amount_spec,
};
use crate::utils::time::{
    boundary_at, lemma_month_index_from_end, month_index, month_index_spec, schedule_start_valid,
};

verus! {

/// The accounts of a release to one recipient.
#[derive(Clone, Copy, Debug, PartialEq, Eq)]
pub struct ReleaseToRecipient {
    /// The schedule.
    pub schedule_state: ScheduleState,
    /// The list of recipients.
    pub recipients: Recipients,
    /// The vault that the tokens leave.
    pub vault: TokenAccount,
    /// The token account that the tokens go to.
    pub recipient_ata: TokenAccount,
    /// Address of the mint account that was handed in.
    pub mint: Pubkey,
    /// The signer, who must be the distributor.
    pub distributor: Pubkey,
}

/// Record of a release to one recipient.
#[derive(Clone, Copy, Debug, PartialEq, Eq)]
pub struct TokensReleased {
    /// Wallet of the recipient.
    pub wallet: Pubkey,
    /// Month of the schedule at the time of the release.
    pub month_index: u8,
    /// Amount moved from the vault to the recipient.
    pub amount: u64,
    /// Allocation of the recipient.
    pub allocation: u64,
    /// Amount released to the recipient so far, this release included.
    pub released_total: u64,
}

/// A release that has been decided on: which slot receives, in which month of
/// the schedule, and how much.
#[derive(Clone, Copy, Debug, PartialEq, Eq)]
pub struct ReleasePlan {
    /// Position of the recipient in the list.
    pub index: usize,
    /// Month of the schedule at the time of the release.
    pub month_index: u8,
    /// Amount to move from the vault to the recipient, more than zero.
    pub amount: u64,
}

/// Why `destination` cannot receive for `wallet`, if it cannot: it must be
/// the associated token account of the wallet for the schedule's mint,
/// `expected_ata`, hold that mint, and belong to the wallet.
pub open spec fn destination_error(
    mint: Pubkey,
    wallet: Pubkey,
    destination: TokenAccount,
    expected_ata: Option<Seq<u8>>,
) -> Option<VestingError> {
    if expected_ata != Some(destination.key@) {
        Some(VestingError::InvalidRecipientAta)
    } else if destination.mint != mint {
        Some(VestingError::InvalidTokenMint)
    } else if destination.owner != wallet {
        Some(VestingError::InvalidTokenAccount)
    } else {
        None
    }
}

/// Checks that `destination` can receive for `wallet`: it is at the address
/// `expected_ata`, which was derived for the wallet and the mint, it holds the
/// mint, and the wallet owns it.
pub fn check_destination(
    mint: &Pubkey,
    wallet: &Pubkey,
    destination: &TokenAccount,
    expected_ata: &Option<Pubkey>,
) -> (res: Result<(), VestingError>)
    ensures
        match destination_error(
            *mint,
            *wallet,
            *destination,
            match *expected_ata {
                Some(key) => Some(key@),
                None => None,
            },
        ) {
            Some(e) => res == Err::<(), VestingError>(e),
            None => res == Ok::<(), VestingError>(()),
        },
{
    match expected_ata {
        Some(key) => {
            proof {
                if key@ == destination.key@ {
                    lemma_pubkey_ext(*key, destination.key);
                }
            }
            if !(destination.key == *key) {
                return Err(VestingError::InvalidRecipientAta);
            }
        },
        None => {
            return Err(VestingError::InvalidRecipientAta);
        },
    }
    if !(destination.mint == *mint) {
        return Err(VestingError::InvalidTokenMint);
    }
    if !(destination.owner == *wallet) {
        return Err(VestingError::InvalidTokenAccount);
    }
    Ok(())
}

/// What `plan_release` decides.
///
/// The wallet must be in the list. A revoked recipient receives nothing, and
/// that is no error. Otherwise the amount is what has vested by the month of
/// `now_ts`, less what the recipient has received; where that is zero, nothing
/// is released, and that is no error either. The vault must hold the amount.
pub open spec fn plan_release_spec(
    state: ScheduleState,
    entries: Seq<RecipientEntry>,
    vault_balance: u64,
    wallet: Pubkey,
    now_ts: i64,
) -> Result<Option<ReleasePlan>, VestingError> {
    match recipient_index(entries.take(active_len(state.recipient_count)), wallet) {
        None => Err(VestingError::RecipientNotFound),
        Some(i) => {
            let entry = entries[i];
            if entry.revoked != 0 {
                Ok(None)
            } else {
                match month_index_spec(now_ts, state.start_ts) {
                    Err(e) => Err(e),
                    Ok(k) => match vested_amount_spec(
                        entry.monthly_amount,
                        entry.final_amount,
                        k,
                    ) {
                        Err(e) => Err(e),
                        Ok(v) => match releasable_spec(v, entry.released_amount) {
                            Err(e) => Err(e),
                            Ok(amount) => if amount == 0 {
                                Ok(None)
                            } else if vault_balance < amount {
                                Err(VestingError::InsufficientVaultBalance)
                            } else if state.released_supply + amount > u64::MAX {
                                Err(VestingError::MathOverflow)
                            } else {
                                Ok(Some(ReleasePlan { index: i as usize, month_index: k, amount }))
                            },
                        },
                    },
                }
            }
        },
    }
}

/// Decides what a release to `wallet` at `now_ts` moves, with `vault_balance`
/// in the vault. Changes nothing.
pub fn plan_release(
    state: &ScheduleState,
    recipients: &Recipients,
    vault_balance: u64,
    wallet: &Pubkey,
    now_ts: i64,
) -> (res: Result<Option<ReleasePlan>, VestingError>)
    ensures
        res == plan_release_spec(*state, recipients@, vault_balance, *wallet, now_ts),
        res matches Ok(Some(plan)) ==> plan_sound(*state, recipients@, vault_balance, plan),
{
    let index: usize = match find_recipient(recipients, state.recipient_count, wallet) {
        Some(i) => i,
        None => {
            return Err(VestingError::RecipientNotFound);
        },
    };
    let entry = recipients.entries[index];
    if entry.revoked != 0 {
        return Ok(None);
    }
    let k: u8 = month_index(now_ts, state.start_ts)?;
    let v: u64 = vested_amount(entry.monthly_amount, entry.final_amount, k)?;
    let amount: u64 = releasable_amount(v, entry.released_amount)?;
    if amount == 0 {
        return Ok(None);
    }
    if vault_balance < amount {
        return Err(VestingError::InsufficientVaultBalance);
    }
    if state.released_supply > u64::MAX - amount {
        return Err(VestingError::MathOverflow);
    }
    Ok(Some(ReleasePlan { index, month_index: k, amount }))
}

/// What holds of every plan that `plan_release` hands out: it names a slot in
/// use whose recipient is not revoked, its amount is more than zero, the vault
/// holds it, and with it the recipient has received exactly what has vested by
/// the month of the plan.
pub open spec fn plan_sound(
    state: ScheduleState,
    entries: Seq<RecipientEntry>,
    vault_balance: u64,
    plan: ReleasePlan,
) -> bool {
    &&& plan.index < active_len(state.recipient_count)
    &&& entries[plan.index as int].revoked == 0
    &&& 1 <= plan.month_index <= 12
    &&& 0 < plan.amount <= vault_balance
    &&& entries[plan.index as int].released_amount + plan.amount == vested(
        entries[plan.index as int].monthly_amount as int,
        entries[plan.index as int].final_amount as int,
        plan.month_index as int,
    )
    &&& entries[plan.index as int].released_amount + plan.amount <= u64::MAX
    &&& state.released_supply + plan.amount <= u64::MAX
}

/// The entry after `amount` more has been released to it.
pub open spec fn entry_after_release(entry: RecipientEntry, amount: u64) -> RecipientEntry {
    RecipientEntry { released_amount: (entry.released_amount + amount) as u64, ..entry }
}

/// The schedule after `amount` more has been released.
pub open spec fn state_after_release(state: ScheduleState, amount: u64) -> ScheduleState {
    ScheduleState { released_supply: (state.released_supply + amount) as u64, ..state }
}

/// The list after the plan has been carried out.
pub open spec fn entries_after_release(entries: Seq<RecipientEntry>, plan: ReleasePlan) -> Seq<
    RecipientEntry,
> {
    entries.update(
        plan.index as int,
        entry_after_release(entries[plan.index as int], plan.amount),
    )
}

/// The record of a release that was carried out from `entries`.
pub open spec fn release_event(entries: Seq<RecipientEntry>, plan: ReleasePlan) -> TokensReleased {
    TokensReleased {
        wallet: entries[plan.index as int].wallet,
        month_index: plan.month_index,
        amount: plan.amount,
        allocation: entries[plan.index as int].allocation,
        released_total: (entries[plan.index as int].released_amount + plan.amount) as u64,
    }
}

/// Books a release that was decided on: the recipient and the schedule have
/// each released `plan.amount` more.
pub(crate) fn apply_release(state: &mut ScheduleState, recipients: &mut Recipients, plan: &ReleasePlan) -> (event:
    TokensReleased)
    requires
        plan.index < 35,
        old(recipients)@[plan.index as int].released_amount + plan.amount <= u64::MAX,
        old(state).released_supply + plan.amount <= u64::MAX,
    ensures
        *final(state) == state_after_release(*old(state), plan.amount),
        final(recipients)@ == entries_after_release(old(recipients)@, *plan),
        event == release_event(old(recipients)@, *plan),
{
    let mut entry = recipients.entries[plan.index];
    entry.released_amount = entry.released_amount + plan.amount;
    recipients.entries[plan.index] = entry;
    state.released_supply = state.released_supply + plan.amount;
    TokensReleased {
        wallet: entry.wallet,
        month_index: plan.month_index,
        amount: plan.amount,
        allocation: entry.allocation,
        released_total: entry.released_amount,
    }
}

/// A plan that `plan_release_spec` arrives at is sound, names the first slot
/// that holds the wallet, and is for the month index of `now_ts`.
pub proof fn lemma_plan_release_spec(
    state: ScheduleState,
    slots: Seq<RecipientEntry>,
    vault_balance: u64,
    wallet: Pubkey,
    now_ts: i64,
    plan: ReleasePlan,
)
    requires
        slots.len() == 35,
        plan_release_spec(state, slots, vault_balance, wallet, now_ts) == Ok::<
            Option<ReleasePlan>,
            VestingError,
        >(Some(plan)),
    ensures
        plan_sound(state, slots, vault_balance, plan),
        recipient_index(slots.take(active_len(state.recipient_count)), wallet) == Some(
            plan.index as int,
        ),
        slots[plan.index as int].wallet == wallet,
        month_index_spec(now_ts, state.start_ts) == Ok::<u8, VestingError>(plan.month_index),
{
    let active = slots.take(active_len(state.recipient_count));
    let i = recipient_index(active, wallet)->Some_0;
    lemma_recipient_index_is_first(active, wallet, i);
    assert(active[i] == slots[i]);
}

/// Carrying out a sound plan keeps the invariant of the schedule, and the
/// schedule advances.
pub proof fn lemma_release_keeps_consistent(
    state: ScheduleState,
    slots: Seq<RecipientEntry>,
    vault_balance: u64,
    plan: ReleasePlan,
)
    requires
        slots.len() == 35,
        plan_sound(state, slots, vault_balance, plan),
    ensures
        schedule_advanced(
            state,
            slots,
            state_after_release(state, plan.amount),
            entries_after_release(slots, plan),
        ),
        schedule_consistent(state, slots) ==> schedule_consistent(
            state_after_release(state, plan.amount),
            entries_after_release(slots, plan),
        ),
{
    let n = active_len(state.recipient_count);
    let i = plan.index as int;
    let after = entries_after_release(slots, plan);
    let entry = entry_after_release(slots[i], plan.amount);
    if schedule_consistent(state, slots) {
        let active = slots.take(n);
        assert(after.take(n) =~= active.update(i, entry));
        lemma_sum_released_update(active, i, entry);
        lemma_sum_allocations_update(active, i, entry);
        assert(active[i].consistent());
        lemma_vested_within_allocation(slots[i].allocation as int, plan.month_index as int);
        assert(entry.consistent());
        assert forall|j: int| 0 <= j < after.take(n).len() implies (#[trigger] after.take(
            n,
        )[j]).consistent() by {
            if j != i {
                assert(active[j].consistent());
            }
        }
        assert forall|j: int, k: int| 0 <= j < k < after.take(n).len() implies (
        #[trigger] after.take(n)[j]).wallet != (#[trigger] after.take(n)[k]).wallet by {
            assert(active[j].wallet != active[k].wallet);
        }
    }
}

/// Carrying out a plan for the month index of `now_ts` leaves no recipient
/// with more released than has vested by `now_ts`, where none had more before.
pub proof fn lemma_release_keeps_accrual(
    state: ScheduleState,
    slots: Seq<RecipientEntry>,
    vault_balance: u64,
    plan: ReleasePlan,
    now_ts: i64,
)
    requires
        slots.len() == 35,
        plan_sound(state, slots, vault_balance, plan),
        month_index_spec(now_ts, state.start_ts) == Ok::<u8, VestingError>(plan.month_index),
        accrual_bounded(state, slots, now_ts),
    ensures
        accrual_bounded(
            state_after_release(state, plan.amount),
            entries_after_release(slots, plan),
            now_ts,
        ),
{
    let after = entries_after_release(slots, plan);
    assert forall|j: int|
        0 <= j < active_len(state.recipient_count) && j < after.len() implies (
    #[trigger] after[j]).released_amount <= vested(
        after[j].monthly_amount as int,
        after[j].final_amount as int,
        accrued_month(now_ts, state.start_ts),
    ) by {
        if j != plan.index {
            assert(slots[j].released_amount <= vested(
                slots[j].monthly_amount as int,
                slots[j].final_amount as int,
                accrued_month(now_ts, state.start_ts),
            ));
        }
    }
}

/// A release that was decided as `plan_release_spec` says, and carried out,
/// keeps the invariants.
pub proof fn lemma_release_keeps_invariants(
    state: ScheduleState,
    slots: Seq<RecipientEntry>,
    vault_balance: u64,
    wallet: Pubkey,
    now_ts: i64,
    plan: ReleasePlan,
)
    requires
        slots.len() == 35,
        plan_release_spec(state, slots, vault_balance, wallet, now_ts) == Ok::<
            Option<ReleasePlan>,
            VestingError,
        >(Some(plan)),
    ensures
        invariants_kept(
            state,
            slots,
            state_after_release(state, plan.amount),
            entries_after_release(slots, plan),
            now_ts,
        ),
{
    lemma_plan_release_spec(state, slots, vault_balance, wallet, now_ts, plan);
    lemma_release_keeps_consistent(state, slots, vault_balance, plan);
    if accrual_bounded(state, slots, now_ts) {
        lemma_release_keeps_accrual(state, slots, vault_balance, plan, now_ts);
    }
}

/// For the monthly and final amounts of an allocation, no more than the
/// allocation has vested by any month.
pub proof fn lemma_vested_within_allocation(allocation: int, month_index: int)
    requires
        0 <= allocation,
        0 <= month_index,
    ensures
        vested(allocation / 12, allocation / 12 + allocation % 12, month_index) <= allocation,
{
    let monthly = allocation / 12;
    if month_index < 12 {
        assert(monthly * month_index <= monthly * 11) by (nonlinear_arith)
            requires
                0 <= monthly,
                0 <= month_index <= 11,
        ;
    }
}

/// Amount that a decision moves: that of the plan, or nothing.
pub open spec fn planned_amount(decided: Option<ReleasePlan>) -> int {
    match decided {
        Some(plan) => plan.amount as int,
        None => 0,
    }
}

/// The schedule after a decision has been carried out.
pub open spec fn state_after_plan(state: ScheduleState, decided: Option<ReleasePlan>) -> ScheduleState {
    match decided {
        Some(plan) => state_after_release(state, plan.amount),
        None => state,
    }
}

/// The slots after a decision has been carried out.
pub open spec fn slots_after_plan(slots: Seq<RecipientEntry>, decided: Option<ReleasePlan>) -> Seq<
    RecipientEntry,
> {
    match decided {
        Some(plan) => entries_after_release(slots, plan),
        None => slots,
    }
}

/// What is left in the vault after a decision has been carried out.
pub open spec fn balance_after_plan(vault_balance: u64, decided: Option<ReleasePlan>) -> int {
    vault_balance - planned_amount(decided)
}

/// Catch-up: a release at `t1` followed by one at `t2` moves in all what a
/// single release at `t2` moves, and leaves the schedule, the list and the
/// vault as the single release does. Months that were passed over are made up
/// for by the next release.
pub proof fn lemma_catch_up(
    state: ScheduleState,
    slots: Seq<RecipientEntry>,
    vault_balance: u64,
    wallet: Pubkey,
    t1: i64,
    t2: i64,
)
    requires
        slots.len() == 35,
        plan_release_spec(state, slots, vault_balance, wallet, t1) is Ok,
        ({
            let first = plan_release_spec(state, slots, vault_balance, wallet, t1)->Ok_0;
            plan_release_spec(
                state_after_plan(state, first),
                slots_after_plan(slots, first),
                balance_after_plan(vault_balance, first) as u64,
                wallet,
                t2,
            ) is Ok
        }),
    ensures
        ({
            let first = plan_release_spec(state, slots, vault_balance, wallet, t1)->Ok_0;
            let second = plan_release_spec(
                state_after_plan(state, first),
                slots_after_plan(slots, first),
                balance_after_plan(vault_balance, first) as u64,
                wallet,
                t2,
            )->Ok_0;
            let single = plan_release_spec(state, slots, vault_balance, wallet, t2);
            &&& single is Ok
            &&& planned_amount(single->Ok_0) == planned_amount(first) + planned_amount(second)
            &&& state_after_plan(state, single->Ok_0) == state_after_plan(
                state_after_plan(state, first),
                second,
            )
            &&& slots_after_plan(slots, single->Ok_0) =~= slots_after_plan(
                slots_after_plan(slots, first),
                second,
            )
            &&& balance_after_plan(vault_balance, single->Ok_0) == balance_after_plan(
                balance_after_plan(vault_balance, first) as u64,
                second,
            )
        }),
{
    let n = active_len(state.recipient_count);
    let first = plan_release_spec(state, slots, vault_balance, wallet, t1)->Ok_0;
    match first {
        None => {},
        Some(plan) => {
            lemma_plan_release_spec(state, slots, vault_balance, wallet, t1, plan);
            let slots1 = entries_after_release(slots, plan);
            let state1 = state_after_release(state, plan.amount);
            assert(state1.recipient_count == state.recipient_count);
            assert(state1.start_ts == state.start_ts);
            lemma_recipient_index_same_wallets(slots.take(n), slots1.take(n), wallet);
            let second = plan_release_spec(
                state1,
                slots1,
                (vault_balance - plan.amount) as u64,
                wallet,
                t2,
            )->Ok_0;
            match second {
                None => {},
                Some(plan2) => {
                    lemma_plan_release_spec(
                        state1,
                        slots1,
                        (vault_balance - plan.amount) as u64,
                        wallet,
                        t2,
                        plan2,
                    );
                },
            }
        },
    }
}

/// Idempotency: once a release has been carried out, a second release to the
/// same wallet at the same time moves nothing, and is no error.
pub proof fn lemma_release_idempotent(
    state: ScheduleState,
    slots: Seq<RecipientEntry>,
    vault_balance: u64,
    wallet: Pubkey,
    now_ts: i64,
    plan: ReleasePlan,
)
    requires
        slots.len() == 35,
        plan_release_spec(state, slots, vault_balance, wallet, now_ts) == Ok::<
            Option<ReleasePlan>,
            VestingError,
        >(Some(plan)),
    ensures
        plan_release_spec(
            state_after_release(state, plan.amount),
            entries_after_release(slots, plan),
            (vault_balance - plan.amount) as u64,
            wallet,
            now_ts,
        ) == Ok::<Option<ReleasePlan>, VestingError>(None),
{
    lemma_plan_release_spec(state, slots, vault_balance, wallet, now_ts, plan);
    let n = active_len(state.recipient_count);
    lemma_recipient_index_same_wallets(
        slots.take(n),
        entries_after_release(slots, plan).take(n),
        wallet,
    );
}

/// Whether the recipient with the given wallet, if it is in the list and not
/// revoked, has been released in `after` exactly what has vested for it by
/// the month of `now_ts`.
pub open spec fn released_what_vested(
    state: ScheduleState,
    before: Seq<RecipientEntry>,
    after: Seq<RecipientEntry>,
    wallet: Pubkey,
    now_ts: i64,
) -> bool {
    match recipient_index(before.take(active_len(state.recipient_count)), wallet) {
        Some(i) => before[i].revoked == 0 ==> {
            &&& month_index_spec(now_ts, state.start_ts) is Ok
            &&& after[i].released_amount == vested(
                before[i].monthly_amount as int,
                before[i].final_amount as int,
                month_index_spec(now_ts, state.start_ts)->Ok_0 as int,
            )
        },
        None => true,
    }
}

/// A release that succeeds leaves a recipient that is not revoked with exactly
/// what has vested for it by the month of `now_ts`, whether the release moved
/// anything or not, and leaves every other entry as it was.
pub proof fn lemma_release_settles_accrual(
    state: ScheduleState,
    slots: Seq<RecipientEntry>,
    vault_balance: u64,
    wallet: Pubkey,
    now_ts: i64,
)
    requires
        slots.len() == 35,
        plan_release_spec(state, slots, vault_balance, wallet, now_ts) is Ok,
    ensures
        released_what_vested(
            state,
            slots,
            slots_after_plan(
                slots,
                plan_release_spec(state, slots, vault_balance, wallet, now_ts)->Ok_0,
            ),
            wallet,
            now_ts,
        ),
        forall|j: int|
            0 <= j < 35 && recipient_index(
                slots.take(active_len(state.recipient_count)),
                wallet,
            ) != Some(j) ==> #[trigger] slots_after_plan(
                slots,
                plan_release_spec(state, slots, vault_balance, wallet, now_ts)->Ok_0,
            )[j] == slots[j],
{
    let active = slots.take(active_len(state.recipient_count));
    let i = recipient_index(active, wallet)->Some_0;
    lemma_recipient_index_is_first(active, wallet, i);
    match plan_release_spec(state, slots, vault_balance, wallet, now_ts)->Ok_0 {
        Some(plan) => {
            lemma_plan_release_spec(state, slots, vault_balance, wallet, now_ts, plan);
        },
        None => {},
    }
}

/// The bound of accrual after a release: where a release to a recipient that
/// is not revoked succeeds, and none of the other recipients had been released
/// more than had vested by `now_ts`, no recipient has afterwards. Of the
/// recipient of the release nothing is asked: that the release succeeds says
/// that it had not been released more than had vested.
pub proof fn lemma_release_bounds_accrual(
    state: ScheduleState,
    slots: Seq<RecipientEntry>,
    vault_balance: u64,
    wallet: Pubkey,
    now_ts: i64,
    i: int,
)
    requires
        slots.len() == 35,
        recipient_index(slots.take(active_len(state.recipient_count)), wallet) == Some(i),
        slots[i].revoked == 0,
        plan_release_spec(state, slots, vault_balance, wallet, now_ts) is Ok,
        forall|j: int|
            0 <= j < active_len(state.recipient_count) && j != i ==> (
            #[trigger] slots[j]).released_amount <= vested(
                slots[j].monthly_amount as int,
                slots[j].final_amount as int,
                accrued_month(now_ts, state.start_ts),
            ),
    ensures
        slots[i].released_amount <= vested(
            slots[i].monthly_amount as int,
            slots[i].final_amount as int,
            accrued_month(now_ts, state.start_ts),
        ),
        accrual_bounded(state, slots, now_ts),
        accrual_bounded(
            state_after_plan(
                state,
                plan_release_spec(state, slots, vault_balance, wallet, now_ts)->Ok_0,
            ),
            slots_after_plan(
                slots,
                plan_release_spec(state, slots, vault_balance, wallet, now_ts)->Ok_0,
            ),
            now_ts,
        ),
{
    let decided = plan_release_spec(state, slots, vault_balance, wallet, now_ts)->Ok_0;
    let after = slots_after_plan(slots, decided);
    lemma_release_settles_accrual(state, slots, vault_balance, wallet, now_ts);
    lemma_recipient_index_is_first(slots.take(active_len(state.recipient_count)), wallet, i);
    assert forall|j: int| 0 <= j < active_len(state.recipient_count) && j < slots.len() implies (
    #[trigger] slots[j]).released_amount <= vested(
        slots[j].monthly_amount as int,
        slots[j].final_amount as int,
        accrued_month(now_ts, state.start_ts),
    ) by {}
    assert forall|j: int| 0 <= j < active_len(state.recipient_count) && j < after.len() implies (
    #[trigger] after[j]).released_amount <= vested(
        after[j].monthly_amount as int,
        after[j].final_amount as int,
        accrued_month(now_ts, state.start_ts),
    ) by {
        if j != i {
            assert(after[j] == slots[j]);
            assert(slots[j].released_amount <= vested(
                slots[j].monthly_amount as int,
                slots[j].final_amount as int,
                accrued_month(now_ts, state.start_ts),
            ));
        }
    }
}

/// A release pays the accrual in full: where the standing conditions of a
/// release are met and the wallet's recipient is not revoked, the release
/// moves what has vested by the month of `now_ts` less what the recipient has
/// received, in one transfer, and moves nothing where that is zero.
///
/// The standing conditions: the list is sealed, the schedule is not paused,
/// the distributor signs, the mint account, the vault and the destination are
/// in order, the vault holds the total supply as long as nothing has been
/// released, the vault holds the amount, and the amounts fit `u64`.
pub proof fn lemma_release_pays_accrual(
    ctx: ReleaseToRecipient,
    wallet: Pubkey,
    now_ts: i64,
    expected_ata: Option<Seq<u8>>,
    i: int,
    k: u8,
)
    requires
        ctx.schedule_state.sealed,
        !ctx.schedule_state.paused,
        ctx.distributor == ctx.schedule_state.distributor,
        ctx.mint == ctx.schedule_state.mint,
        ctx.vault.mint == ctx.schedule_state.mint,
        destination_error(ctx.schedule_state.mint, wallet, ctx.recipient_ata, expected_ata)
            is None,
        ctx.schedule_state.released_supply == 0 ==> ctx.vault.amount
            == ctx.schedule_state.total_supply,
        recipient_index(
            ctx.recipients.active(ctx.schedule_state.recipient_count),
            wallet,
        ) == Some(i),
        ctx.recipients@[i].revoked == 0,
        month_index_spec(now_ts, ctx.schedule_state.start_ts) == Ok::<u8, VestingError>(k),
        ctx.recipients@[i].released_amount <= vested(
            ctx.recipients@[i].monthly_amount as int,
            ctx.recipients@[i].final_amount as int,
            k as int,
        ) <= u64::MAX,
        vested(
            ctx.recipients@[i].monthly_amount as int,
            ctx.recipients@[i].final_amount as int,
            k as int,
        ) - ctx.recipients@[i].released_amount <= ctx.vault.amount,
        ctx.schedule_state.released_supply + vested(
            ctx.recipients@[i].monthly_amount as int,
            ctx.recipients@[i].final_amount as int,
            k as int,
        ) - ctx.recipients@[i].released_amount <= u64::MAX,
    ensures
        ({
            let due = vested(
                ctx.recipients@[i].monthly_amount as int,
                ctx.recipients@[i].final_amount as int,
                k as int,
            ) - ctx.recipients@[i].released_amount;
            let decided = release_to_recipient_spec(ctx, wallet, now_ts, expected_ata);
            &&& due == 0 ==> decided == Ok::<Option<ReleasePlan>, VestingError>(None)
            &&& due > 0 ==> decided == Ok::<Option<ReleasePlan>, VestingError>(
                Some(ReleasePlan { index: i as usize, month_index: k, amount: due as u64 }),
            )
            &&& decided is Ok
            &&& planned_amount(decided->Ok_0) == due
            &&& slots_after_plan(ctx.recipients@, decided->Ok_0)[i].released_amount == vested(
                ctx.recipients@[i].monthly_amount as int,
                ctx.recipients@[i].final_amount as int,
                k as int,
            )
        }),
{
    lemma_recipient_index_is_first(
        ctx.recipients.active(ctx.schedule_state.recipient_count),
        wallet,
        i,
    );
}

/// Terminal completeness: a release that succeeds at or after the end of the
/// vesting period leaves a recipient that is not revoked with its whole
/// allocation released, whatever it had received before.
pub proof fn lemma_terminal_release(
    state: ScheduleState,
    slots: Seq<RecipientEntry>,
    vault_balance: u64,
    wallet: Pubkey,
    now_ts: i64,
    i: int,
)
    requires
        slots.len() == 35,
        schedule_start_valid(state.start_ts),
        now_ts >= boundary_at(datetime_of(state.start_ts as int), 12),
        recipient_index(slots.take(active_len(state.recipient_count)), wallet) == Some(i),
        slots[i].consistent(),
        slots[i].revoked == 0,
        plan_release_spec(state, slots, vault_balance, wallet, now_ts) is Ok,
    ensures
        slots_after_plan(
            slots,
            plan_release_spec(state, slots, vault_balance, wallet, now_ts)->Ok_0,
        )[i].released_amount == slots[i].allocation,
{
    lemma_month_index_from_end(state.start_ts, now_ts);
    lemma_recipient_index_is_first(slots.take(active_len(state.recipient_count)), wallet, i);
}

/// What a release to one recipient decides, `expected_ata` being the address
/// that was derived for the wallet and the schedule's mint.
///
/// The list must be sealed and the schedule not paused; the signer must be the
/// distributor; the mint account and the vault must be of the schedule's mint;
/// the destination must be the wallet's associated token account. As long as
/// nothing has been released, the vault must hold exactly the total supply.
/// Then the release is decided as `plan_release_spec` says.
pub open spec fn release_to_recipient_spec(
    ctx: ReleaseToRecipient,
    wallet: Pubkey,
    now_ts: i64,
    expected_ata: Option<Seq<u8>>,
) -> Result<Option<ReleasePlan>, VestingError> {
    let state = ctx.schedule_state;
    if !state.sealed {
        Err(VestingError::RecipientsNotSealed)
    } else if state.paused {
        Err(VestingError::SchedulePaused)
    } else if ctx.distributor != state.distributor {
        Err(VestingError::UnauthorizedDistributor)
    } else if ctx.mint != state.mint || ctx.vault.mint != state.mint {
        Err(VestingError::InvalidTokenMint)
    } else if destination_error(state.mint, wallet, ctx.recipient_ata, expected_ata) is Some {
        Err(destination_error(state.mint, wallet, ctx.recipient_ata, expected_ata)->Some_0)
    } else if state.released_supply == 0 && ctx.vault.amount != state.total_supply {
        Err(VestingError::VaultNotExactlyFunded)
    } else {
        plan_release_spec(state, ctx.recipients@, ctx.vault.amount, wallet, now_ts)
    }
}

/// How the accounts and the result of a release stand to what was decided.
///
/// On an error, and where nothing is released, the accounts are as before.
/// Where a plan is carried out, the recipient and the schedule have released
/// the amount of the plan more, nothing else has changed, and the result is
/// the record of the release.
pub open spec fn release_outcome(
    before: ReleaseToRecipient,
    after: ReleaseToRecipient,
    res: Result<Option<TokensReleased>, VestingError>,
    decided: Result<Option<ReleasePlan>, VestingError>,
) -> bool {
    match decided {
        Err(e) => res == Err::<Option<TokensReleased>, VestingError>(e) && after == before,
        Ok(None) => res == Ok::<Option<TokensReleased>, VestingError>(None) && after == before,
        Ok(Some(plan)) => {
            &&& res == Ok::<Option<TokensReleased>, VestingError>(
                Some(release_event(before.recipients@, plan)),
            )
            &&& after.schedule_state == state_after_release(before.schedule_state, plan.amount)
            &&& after.recipients@ == entries_after_release(before.recipients@, plan)
            &&& after.vault == before.vault
            &&& after.recipient_ata == before.recipient_ata
            &&& after.mint == before.mint
            &&& after.distributor == before.distributor
        },
    }
}

/// Releases to `wallet` what has vested at `now_ts` and has not been released
/// yet, `expected_ata` being the address derived for the wallet and the
/// schedule's mint.
///
/// Returns the record of the release, whose amount is to be moved from the
/// vault to the destination, or `None` where nothing is to be moved: the
/// recipient is revoked, or has received all that has vested.
pub fn release_to_recipient_with_ata(
    ctx: &mut ReleaseToRecipient,
    wallet: Pubkey,
    now_ts: i64,
    expected_ata: Option<Pubkey>,
) -> (res: Result<Option<TokensReleased>, VestingError>)
    ensures
        release_outcome(
            *old(ctx),
            *final(ctx),
            res,
            release_to_recipient_spec(
                *old(ctx),
                wallet,
                now_ts,
                match expected_ata {
                    Some(key) => Some(key@),
                    None => None,
                },
            ),
        ),
        invariants_kept(
            old(ctx).schedule_state,
            old(ctx).recipients@,
            final(ctx).schedule_state,
            final(ctx).recipients@,
            now_ts,
        ),
        res is Ok ==> released_what_vested(
            old(ctx).schedule_state,
            old(ctx).recipients@,
            final(ctx).recipients@,
            wallet,
            now_ts,
        ),
{
    let state = ctx.schedule_state;
    if !state.sealed {
        return Err(VestingError::RecipientsNotSealed);
    }
    if state.paused {
        return Err(VestingError::SchedulePaused);
    }
    if !(ctx.distributor == state.distributor) {
        return Err(VestingError::UnauthorizedDistributor);
    }
    if !(ctx.mint == state.mint) || !(ctx.vault.mint == state.mint) {
        return Err(VestingError::InvalidTokenMint);
    }
    check_destination(&state.mint, &wallet, &ctx.recipient_ata, &expected_ata)?;
    if state.released_supply == 0 && ctx.vault.amount != state.total_supply {
        return Err(VestingError::VaultNotExactlyFunded);
    }
    let decided = plan_release(&state, &ctx.recipients, ctx.vault.amount, &wallet, now_ts)?;
    proof {
        lemma_release_settles_accrual(state, ctx.recipients@, ctx.vault.amount, wallet, now_ts);
    }
    let plan = match decided {
        Some(plan) => plan,
        None => {
            return Ok(None);
        },
    };
    proof {
        lemma_release_keeps_invariants(
            state,
            ctx.recipients@,
            ctx.vault.amount,
            wallet,
            now_ts,
            plan,
        );
    }
    let mut new_state = state;
    let mut new_recipients = ctx.recipients;
    let event = apply_release(&mut new_state, &mut new_recipients, &plan);
    ctx.schedule_state = new_state;
    ctx.recipients = new_recipients;
    Ok(Some(event))
}

/// Releases to `wallet` what has vested at `now_ts` and has not been released
/// yet. The destination must be at the address that the wallet and the
/// schedule's mint derive.
///
/// Returns the record of the release, whose amount is to be moved from the
/// vault to the destination, or `None` where nothing is to be moved: the
/// recipient is revoked, or has received all that has vested.
pub fn release_to_recipient(ctx: &mut ReleaseToRecipient, wallet: Pubkey, now_ts: i64) -> (res:
    Result<Option<TokensReleased>, VestingError>)
    ensures
        release_outcome(
            *old(ctx),
            *final(ctx),
            res,
            release_to_recipient_spec(
                *old(ctx),
                wallet,
                now_ts,
                associated_token_address_spec(wallet, old(ctx).schedule_state.mint),
            ),
        ),
        invariants_kept(
            old(ctx).schedule_state,
            old(ctx).recipients@,
            final(ctx).schedule_state,
            final(ctx).recipients@,
            now_ts,
        ),
        res is Ok ==> released_what_vested(
            old(ctx).schedule_state,
            old(ctx).recipients@,
            final(ctx).recipients@,
            wallet,
            now_ts,
        ),
{
    let expected_ata = match expected_ata_address(&wallet, &ctx.schedule_state.mint) {
        Ok(key) => Some(key),
        Err(_) => None,
    };
    release_to_recipient_with_ata(ctx, wallet, now_ts, expected_ata)
}

} // verus!
