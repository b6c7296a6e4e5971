//! What holds of the schedule and its list of recipients after every
//! operation that succeeds, and how the two may change from one operation to
//! the next.

use vstd::prelude::*;
use crate::state::recipients::{
    active_len, is_first_match, lemma_recipient_index_found, recipient_index, sum_allocations,
    sum_released, RecipientEntry,
};
use crate::state::schedule_state::ScheduleState;
use crate::utils::accrual::{lemma_vested_monotonic, vested};
use crate::utils::time::{lemma_month_index_monotonic, month_index_spec, schedule_start_valid};

verus! {

/// Whether no two of the entries share a wallet.
pub open spec fn wallets_distinct(entries: Seq<RecipientEntry>) -> bool {
    forall|i: int, j: int|
        0 <= i < j < entries.len() ==> (#[trigger] entries[i]).wallet != (
        #[trigger] entries[j]).wallet
}

/// Whether every entry is consistent: eleven monthly amounts and the final
/// amount make up its allocation, and it has been released no more than its
/// allocation.
pub open spec fn entries_consistent(entries: Seq<RecipientEntry>) -> bool {
    forall|i: int| 0 <= i < entries.len() ==> (#[trigger] entries[i]).consistent()
}

/// The invariant of the schedule over `slots`, the 35 slots of its list.
///
/// The schedule runs for 12 months from a start after 1970, over a total
/// supply of more than zero. Of the slots in use: the released supply is the
/// sum of what they have been released; each is consistent; their allocations
/// add up to no more than the total supply, and to exactly the total supply
/// once the list is sealed; and no two of them share a wallet.
pub open spec fn schedule_consistent(state: ScheduleState, slots: Seq<RecipientEntry>) -> bool {
    let active = slots.take(active_len(state.recipient_count));
    &&& slots.len() == 35
    &&& state.recipient_count <= 35
    &&& state.duration_months == 12
    &&& state.start_ts > 0
    &&& state.total_supply > 0
    &&& state.released_supply == sum_released(active)
    &&& entries_consistent(active)
    &&& sum_allocations(active) <= state.total_supply
    &&& state.sealed ==> sum_allocations(active) == state.total_supply
    &&& wallets_distinct(active)
}

/// The month of the schedule that has been reached at `now_ts`: the month
/// index, and 0 where there is none, as before the start.
pub open spec fn accrued_month(now_ts: i64, start_ts: i64) -> int {
    match month_index_spec(now_ts, start_ts) {
        Ok(k) => k as int,
        Err(_) => 0,
    }
}

/// Whether no slot in use has been released more than has vested for it by
/// the month reached at `now_ts`.
pub open spec fn accrual_bounded(state: ScheduleState, slots: Seq<RecipientEntry>, now_ts: i64) -> bool {
    forall|i: int|
        0 <= i < active_len(state.recipient_count) && i < slots.len() ==> (
        #[trigger] slots[i]).released_amount <= vested(
            slots[i].monthly_amount as int,
            slots[i].final_amount as int,
            accrued_month(now_ts, state.start_ts),
        )
}

/// Whether the entry `after` can have come from `before`: the wallet and the
/// amounts that were fixed when it was added are the same, the released
/// amount has not gone down, and a revoked recipient is still revoked.
pub open spec fn entry_advanced(before: RecipientEntry, after: RecipientEntry) -> bool {
    &&& after.wallet == before.wallet
    &&& after.allocation == before.allocation
    &&& after.monthly_amount == before.monthly_amount
    &&& after.final_amount == before.final_amount
    &&& after.released_amount >= before.released_amount
    &&& before.revoked != 0 ==> after.revoked != 0
}

/// Whether the schedule and its slots `after` can have come from those
/// `before`: what was fixed at the setting up is the same; the released
/// supply has not gone down; a sealed list is still sealed, with the same
/// recipients; no recipient has left the list or changed its place; and each
/// entry has advanced.
pub open spec fn schedule_advanced(
    before: ScheduleState,
    slots_before: Seq<RecipientEntry>,
    after: ScheduleState,
    slots_after: Seq<RecipientEntry>,
) -> bool {
    &&& after.mint == before.mint
    &&& after.admin == before.admin
    &&& after.start_ts == before.start_ts
    &&& after.total_supply == before.total_supply
    &&& after.duration_months == before.duration_months
    &&& after.released_supply >= before.released_supply
    &&& before.sealed ==> after.sealed && after.recipient_count == before.recipient_count
    &&& active_len(after.recipient_count) >= active_len(before.recipient_count)
    &&& slots_after.len() == slots_before.len()
    &&& forall|i: int|
        0 <= i < active_len(before.recipient_count) && i < slots_before.len() ==> entry_advanced(
            #[trigger] slots_before[i],
            slots_after[i],
        )
}

/// Advancing twice is advancing: the released supply, the released amount of
/// each recipient and the revoked mark never go back over any history of
/// operations.
pub proof fn lemma_advanced_transitive(
    a: ScheduleState,
    slots_a: Seq<RecipientEntry>,
    b: ScheduleState,
    slots_b: Seq<RecipientEntry>,
    c: ScheduleState,
    slots_c: Seq<RecipientEntry>,
)
    requires
        schedule_advanced(a, slots_a, b, slots_b),
        schedule_advanced(b, slots_b, c, slots_c),
    ensures
        schedule_advanced(a, slots_a, c, slots_c),
{
    assert forall|i: int|
        0 <= i < active_len(a.recipient_count) && i < slots_a.len() implies entry_advanced(
        #[trigger] slots_a[i],
        slots_c[i],
    ) by {
        assert(entry_advanced(slots_a[i], slots_b[i]));
        assert(entry_advanced(slots_b[i], slots_c[i]));
    }
}

/// The sum of the released amounts after one entry has been replaced.
pub proof fn lemma_sum_released_update(entries: Seq<RecipientEntry>, i: int, entry: RecipientEntry)
    requires
        0 <= i < entries.len(),
    ensures
        sum_released(entries.update(i, entry)) == sum_released(entries)
            - entries[i].released_amount + entry.released_amount,
    decreases entries.len(),
{
    let updated = entries.update(i, entry);
    if i == entries.len() - 1 {
        assert(updated.drop_last() =~= entries.drop_last());
    } else {
        assert(updated.drop_last() =~= entries.drop_last().update(i, entry));
        lemma_sum_released_update(entries.drop_last(), i, entry);
    }
}

/// The sum of the allocations after one entry has been replaced.
pub proof fn lemma_sum_allocations_update(
    entries: Seq<RecipientEntry>,
    i: int,
    entry: RecipientEntry,
)
    requires
        0 <= i < entries.len(),
    ensures
        sum_allocations(entries.update(i, entry)) == sum_allocations(entries)
            - entries[i].allocation + entry.allocation,
    decreases entries.len(),
{
    let updated = entries.update(i, entry);
    if i == entries.len() - 1 {
        assert(updated.drop_last() =~= entries.drop_last());
    } else {
        assert(updated.drop_last() =~= entries.drop_last().update(i, entry));
        lemma_sum_allocations_update(entries.drop_last(), i, entry);
    }
}

/// No entry has been released more than the sum of all of them, and the sum
/// of what consistent entries have been released is no more than the sum of
/// their allocations.
pub proof fn lemma_sum_released_bounds(entries: Seq<RecipientEntry>, i: int)
    requires
        0 <= i < entries.len(),
    ensures
        entries[i].released_amount <= sum_released(entries),
        0 <= sum_released(entries),
        entries_consistent(entries) ==> sum_released(entries) <= sum_allocations(entries),
    decreases entries.len(),
{
    lemma_sums_nonnegative(entries);
    lemma_sums_nonnegative(entries.drop_last());
    if i < entries.len() - 1 {
        lemma_sum_released_bounds(entries.drop_last(), i);
    } else if entries.len() > 1 {
        lemma_sum_released_bounds(entries.drop_last(), 0);
    }
    if entries_consistent(entries) {
        assert(entries.last().consistent());
        assert(entries_consistent(entries.drop_last())) by {
            assert forall|j: int| 0 <= j < entries.drop_last().len() implies (
            #[trigger] entries.drop_last()[j]).consistent() by {
                assert(entries[j].consistent());
            }
        }
    }
}

/// The sums are not negative.
pub proof fn lemma_sums_nonnegative(entries: Seq<RecipientEntry>)
    ensures
        0 <= sum_released(entries),
        0 <= sum_allocations(entries),
    decreases entries.len(),
{
    if entries.len() > 0 {
        lemma_sums_nonnegative(entries.drop_last());
    }
}

/// What `recipient_index` finds is the first match.
pub proof fn lemma_recipient_index_is_first(
    entries: Seq<RecipientEntry>,
    wallet: crate::pubkey::Pubkey,
    i: int,
)
    requires
        recipient_index(entries, wallet) == Some(i),
    ensures
        is_first_match(entries, wallet, i),
{
}

/// Where the wallets of two lists are the same place by place, a wallet is
/// found at the same place in both.
pub proof fn lemma_recipient_index_same_wallets(
    a: Seq<RecipientEntry>,
    b: Seq<RecipientEntry>,
    wallet: crate::pubkey::Pubkey,
)
    requires
        a.len() == b.len(),
        forall|i: int| 0 <= i < a.len() ==> (#[trigger] a[i]).wallet == b[i].wallet,
    ensures
        recipient_index(a, wallet) == recipient_index(b, wallet),
{
    match recipient_index(a, wallet) {
        Some(i) => {
            lemma_recipient_index_is_first(a, wallet, i);
            assert(is_first_match(b, wallet, i)) by {
                assert(a[i].wallet == b[i].wallet);
                assert forall|j: int| 0 <= j < i implies b[j].wallet != wallet by {
                    assert(a[j].wallet == b[j].wallet);
                }
            }
            lemma_recipient_index_found(b, wallet, i);
        },
        None => {
            match recipient_index(b, wallet) {
                Some(i) => {
                    lemma_recipient_index_is_first(b, wallet, i);
                    assert(is_first_match(a, wallet, i)) by {
                        assert(a[i].wallet == b[i].wallet);
                        assert forall|j: int| 0 <= j < i implies a[j].wallet != wallet by {
                            assert(a[j].wallet == b[j].wallet);
                        }
                    }
                    lemma_recipient_index_found(a, wallet, i);
                },
                None => {},
            }
        },
    }
}

/// What an operation at `now_ts` keeps: the schedule has advanced; where the
/// invariant held before it holds after; and where no recipient had been
/// released more than had vested by `now_ts`, none has afterwards.
pub open spec fn invariants_kept(
    before: ScheduleState,
    slots_before: Seq<RecipientEntry>,
    after: ScheduleState,
    slots_after: Seq<RecipientEntry>,
    now_ts: i64,
) -> bool {
    &&& schedule_advanced(before, slots_before, after, slots_after)
    &&& schedule_consistent(before, slots_before) ==> schedule_consistent(after, slots_after)
    &&& accrual_bounded(before, slots_before, now_ts) ==> accrual_bounded(
        after,
        slots_after,
        now_ts,
    )
}

/// An operation that changes neither the schedule nor the list keeps the
/// invariants.
pub proof fn lemma_unchanged_keeps(state: ScheduleState, slots: Seq<RecipientEntry>, now_ts: i64)
    ensures
        invariants_kept(state, slots, state, slots, now_ts),
{
}

/// A change of the pause flag or of the distributor keeps the invariants:
/// neither takes part in them.
pub proof fn lemma_authority_change_keeps(
    before: ScheduleState,
    after: ScheduleState,
    slots: Seq<RecipientEntry>,
    now_ts: i64,
)
    requires
        after == (ScheduleState { paused: after.paused, distributor: after.distributor, ..before }),
    ensures
        invariants_kept(before, slots, after, slots, now_ts),
{
}

/// The invariant bounds the released supply by the total supply.
pub proof fn lemma_released_within_supply(state: ScheduleState, slots: Seq<RecipientEntry>)
    requires
        schedule_consistent(state, slots),
    ensures
        state.released_supply <= state.total_supply,
{
    let active = slots.take(active_len(state.recipient_count));
    if active.len() > 0 {
        lemma_sum_released_bounds(active, 0);
    }
}

/// Two operations at `now_ts`, one after the other, keep what each keeps.
pub proof fn lemma_invariants_kept_twice(
    a: ScheduleState,
    slots_a: Seq<RecipientEntry>,
    b: ScheduleState,
    slots_b: Seq<RecipientEntry>,
    c: ScheduleState,
    slots_c: Seq<RecipientEntry>,
    now_ts: i64,
)
    requires
        invariants_kept(a, slots_a, b, slots_b, now_ts),
        invariants_kept(b, slots_b, c, slots_c, now_ts),
    ensures
        invariants_kept(a, slots_a, c, slots_c, now_ts),
{
    lemma_advanced_transitive(a, slots_a, b, slots_b, c, slots_c);
}

/// Time alone keeps the bound of accrual: where no recipient has been
/// released more than had vested by `t1`, none has been released more than
/// has vested by any later time.
pub proof fn lemma_accrual_bounded_later(
    state: ScheduleState,
    slots: Seq<RecipientEntry>,
    t1: i64,
    t2: i64,
)
    requires
        schedule_start_valid(state.start_ts),
        t1 <= t2,
        accrual_bounded(state, slots, t1),
    ensures
        accrual_bounded(state, slots, t2),
{
    let k1 = accrued_month(t1, state.start_ts);
    let k2 = accrued_month(t2, state.start_ts);
    assert(0 <= k1 <= k2) by {
        if state.start_ts <= t1 {
            lemma_month_index_monotonic(state.start_ts, t1, t2);
        }
    }
    assert forall|i: int|
        0 <= i < active_len(state.recipient_count) && i < slots.len() implies (
    #[trigger] slots[i]).released_amount <= vested(
        slots[i].monthly_amount as int,
        slots[i].final_amount as int,
        k2,
    ) by {
        lemma_vested_monotonic(
            slots[i].monthly_amount as int,
            slots[i].final_amount as int,
            k1,
            k2,
        );
    }
}

} // verus!
