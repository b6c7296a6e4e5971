//! Adding recipients to the list, and sealing it.

use vstd::prelude::*;
use crate::constants::{DURATION_MONTHS, MAX_RECIPIENTS};
use crate::error::VestingError;
use crate::invariants::{
    accrual_bounded, accrued_month, invariants_kept, schedule_advanced, schedule_consistent,
};
use crate::pubkey::Pubkey;
use crate::state::recipients::{
    active_len, find_recipient, sum_allocations, sum_released, RecipientEntry, RecipientInput,
    Recipients,
};
use crate::utils::accrual::vested;
use crate::state::schedule_state::ScheduleState;

verus! {

/// The accounts for adding recipients.
#[derive(Clone, Copy, Debug, PartialEq, Eq)]
pub struct AddRecipients {
    /// The schedule.
    pub schedule_state: ScheduleState,
    /// The list of recipients.
    pub recipients: Recipients,
    /// The signer, who must be the admin.
    pub admin: Pubkey,
}

/// Record of recipients added, or of the sealing of the list.
#[derive(Clone, Copy, Debug, PartialEq, Eq, Structural)]
pub struct RecipientsAdded {
    /// Number of recipients added.
    pub count_added: u8,
    /// Number of recipients in the list afterwards.
    pub new_total: u8,
    /// Whether the record is that of the sealing.
    pub sealed: bool,
}

/// Why input `i` is refused, if it is: its wallet is the zero key, its
/// allocation is zero, the list is full, or its wallet is in the list already
/// or among the inputs before it. `existing` is the list as it was.
pub open spec fn input_error(
    existing: Seq<RecipientEntry>,
    inputs: Seq<RecipientInput>,
    i: int,
) -> Option<VestingError> {
    if inputs[i].wallet.is_zero() {
        Some(VestingError::InvalidPubkey)
    } else if inputs[i].allocation == 0 {
        Some(VestingError::InvalidAllocation)
    } else if existing.len() + i >= 35 {
        Some(VestingError::RecipientListFull)
    } else if (exists|j: int| 0 <= j < existing.len() && existing[j].wallet == inputs[i].wallet)
        || (exists|j: int| 0 <= j < i && inputs[j].wallet == inputs[i].wallet) {
        Some(VestingError::DuplicateRecipient)
    } else {
        None
    }
}

/// The error of the first of the first `n` inputs that is refused, if any is.
pub open spec fn first_input_error(
    existing: Seq<RecipientEntry>,
    inputs: Seq<RecipientInput>,
    n: nat,
) -> Option<VestingError>
    decreases n,
{
    if n == 0 {
        None
    } else {
        match first_input_error(existing, inputs, (n - 1) as nat) {
            Some(e) => Some(e),
            None => input_error(existing, inputs, n - 1),
        }
    }
}

/// Once an input has been refused, its error is that of the whole.
pub proof fn lemma_first_input_error_stays(
    existing: Seq<RecipientEntry>,
    inputs: Seq<RecipientInput>,
    i: nat,
    n: nat,
)
    requires
        i <= n,
        first_input_error(existing, inputs, i) is Some,
    ensures
        first_input_error(existing, inputs, n) == first_input_error(existing, inputs, i),
    decreases n,
{
    if i < n {
        lemma_first_input_error_stays(existing, inputs, i, (n - 1) as nat);
    }
}

/// The slots after the inputs have been added behind the first `count`: each
/// input fills the next slot with a fresh entry, in the order of the inputs.
pub open spec fn entries_with_added(
    entries: Seq<RecipientEntry>,
    count: int,
    inputs: Seq<RecipientInput>,
) -> Seq<RecipientEntry> {
    Seq::new(
        entries.len(),
        |i: int|
            if count <= i < count + inputs.len() {
                RecipientEntry::fresh(inputs[i - count])
            } else {
                entries[i]
            },
    )
}

/// What adding recipients leaves behind: the schedule, the slots, and the
/// records.
pub struct AddOutcome {
    /// The schedule.
    pub state: ScheduleState,
    /// The slots of the list.
    pub entries: Seq<RecipientEntry>,
    /// The record of the recipients added.
    pub added: RecipientsAdded,
    /// The record of the sealing, where the list was sealed.
    pub sealing: Option<RecipientsAdded>,
}

/// What adding recipients decides.
///
/// The signer must be the admin, the list not sealed, and the duration 12
/// months. No input may be refused. With the inputs added, the allocations of
/// the list must not add up to more than the total supply, and where the list
/// is to be sealed, to exactly the total supply.
pub open spec fn add_recipients_spec(
    ctx: AddRecipients,
    inputs: Seq<RecipientInput>,
    seal: bool,
) -> Result<AddOutcome, VestingError> {
    let state = ctx.schedule_state;
    let existing = ctx.recipients.active(state.recipient_count);
    let count = state.recipient_count + inputs.len();
    let entries = entries_with_added(ctx.recipients@, state.recipient_count as int, inputs);
    if ctx.admin != state.admin {
        Err(VestingError::UnauthorizedAdmin)
    } else if state.sealed {
        Err(VestingError::RecipientsSealed)
    } else if state.duration_months != 12 {
        Err(VestingError::InvalidConfig)
    } else if first_input_error(existing, inputs, inputs.len()) is Some {
        Err(first_input_error(existing, inputs, inputs.len())->Some_0)
    } else if sum_allocations(entries.take(active_len(count as u8))) > state.total_supply {
        Err(VestingError::AllocationSumExceedsTotalSupply)
    } else if seal && sum_allocations(entries.take(active_len(count as u8)))
        != state.total_supply {
        Err(VestingError::AllocationSumMismatchAtSeal)
    } else {
        Ok(
            AddOutcome {
                state: ScheduleState { recipient_count: count as u8, sealed: seal, ..state },
                entries,
                added: RecipientsAdded {
                    count_added: inputs.len() as u8,
                    new_total: count as u8,
                    sealed: false,
                },
                sealing: if seal {
                    Some(RecipientsAdded { count_added: 0, new_total: count as u8, sealed: true })
                } else {
                    None
                },
            },
        )
    }
}

/// Where no input is refused, the inputs fit the free slots.
pub proof fn lemma_inputs_fit(existing: Seq<RecipientEntry>, inputs: Seq<RecipientInput>, n: nat)
    requires
        first_input_error(existing, inputs, n) is None,
        n > 0,
    ensures
        existing.len() + n <= 35,
    decreases n,
{
}

/// Where none of the first `n` inputs is refused, each of them is accepted.
pub proof fn lemma_each_input_accepted(
    existing: Seq<RecipientEntry>,
    inputs: Seq<RecipientInput>,
    n: nat,
    i: int,
)
    requires
        first_input_error(existing, inputs, n) is None,
        0 <= i < n,
    ensures
        input_error(existing, inputs, i) is None,
    decreases n,
{
    if i < n - 1 {
        lemma_each_input_accepted(existing, inputs, (n - 1) as nat, i);
    }
}

/// Added entries have been released nothing: the sum of the released amounts
/// of the slots in use is what it was.
pub proof fn lemma_added_released_nothing(
    slots: Seq<RecipientEntry>,
    count: int,
    inputs: Seq<RecipientInput>,
)
    requires
        0 <= count,
        count + inputs.len() <= slots.len(),
    ensures
        sum_released(entries_with_added(slots, count, inputs).take(count + inputs.len()))
            == sum_released(slots.take(count)),
    decreases inputs.len(),
{
    let n = inputs.len() as int;
    let added = entries_with_added(slots, count, inputs);
    if n == 0 {
        assert(added.take(count) =~= slots.take(count));
    } else {
        let fewer = entries_with_added(slots, count, inputs.drop_last());
        lemma_added_released_nothing(slots, count, inputs.drop_last());
        assert(added.take(count + n).drop_last() =~= fewer.take(count + n - 1));
        assert(added.take(count + n).last() == RecipientEntry::fresh(inputs[n - 1]));
    }
}

/// Adding recipients keeps the invariants, at any time.
pub proof fn lemma_add_keeps_invariants(
    ctx: AddRecipients,
    inputs: Seq<RecipientInput>,
    seal: bool,
    now_ts: i64,
)
    requires
        add_recipients_spec(ctx, inputs, seal) is Ok,
    ensures
        invariants_kept(
            ctx.schedule_state,
            ctx.recipients@,
            add_recipients_spec(ctx, inputs, seal)->Ok_0.state,
            add_recipients_spec(ctx, inputs, seal)->Ok_0.entries,
            now_ts,
        ),
{
    let state = ctx.schedule_state;
    let slots = ctx.recipients@;
    let outcome = add_recipients_spec(ctx, inputs, seal)->Ok_0;
    let c = state.recipient_count as int;
    let n = inputs.len() as int;
    let existing = ctx.recipients.active(state.recipient_count);
    let added = outcome.entries;
    if n > 0 {
        lemma_inputs_fit(existing, inputs, inputs.len());
        assert(c + n <= 35);
    }
    assert(active_len(outcome.state.recipient_count) >= active_len(state.recipient_count));
    assert(schedule_advanced(state, slots, outcome.state, added));
    assert forall|i: int| 0 <= i < n implies inputs[i].allocation > 0 && !inputs[i].wallet.is_zero()
        && (forall|j: int| 0 <= j < existing.len() ==> existing[j].wallet != inputs[i].wallet) && (
    forall|j: int| 0 <= j < i ==> inputs[j].wallet != inputs[i].wallet) by {
        lemma_each_input_accepted(existing, inputs, inputs.len(), i);
    }
    if schedule_consistent(state, slots) {
        let after = added.take(c + n);
        assert(existing =~= slots.take(c));
        lemma_added_released_nothing(slots, c, inputs);
        assert forall|i: int| 0 <= i < after.len() implies (#[trigger] after[i]).consistent() by {
            if i < c {
                assert(existing[i].consistent());
            } else {
                assert(after[i] == RecipientEntry::fresh(inputs[i - c]));
            }
        }
        assert forall|i: int, j: int| 0 <= i < j < after.len() implies (#[trigger] after[i]).wallet
            != (#[trigger] after[j]).wallet by {
            if j < c {
                assert(existing[i].wallet != existing[j].wallet);
            } else if i < c {
                assert(existing[i].wallet != inputs[j - c].wallet);
            } else {
                assert(inputs[i - c].wallet != inputs[j - c].wallet);
            }
        }
        assert(schedule_consistent(outcome.state, added));
    }
    if accrual_bounded(state, slots, now_ts) {
        let k = accrued_month(now_ts, state.start_ts);
        assert forall|i: int|
            0 <= i < active_len(outcome.state.recipient_count) && i < added.len() implies (
        #[trigger] added[i]).released_amount <= vested(
            added[i].monthly_amount as int,
            added[i].final_amount as int,
            k,
        ) by {
            if i < c {
                assert(added[i] == slots[i]);
            } else {
                assert(added[i] == RecipientEntry::fresh(inputs[i - c]));
                let monthly = added[i].monthly_amount as int;
                assert(0 <= monthly * k) by (nonlinear_arith)
                    requires
                        0 <= monthly,
                        0 <= k,
                ;
            }
        }
    }
}

/// Sum of the allocations of the first `count` slots, or of all 35 where
/// `count` is more.
pub fn allocations_sum_u128(recipients: &Recipients, count: u8) -> (sum: u128)
    ensures
        sum == sum_allocations(recipients.active(count)),
{
    let n: usize = if count as usize <= MAX_RECIPIENTS { count as usize } else { MAX_RECIPIENTS };
    let mut sum: u128 = 0;
    let mut i: usize = 0;
    while i < n
        invariant
            i <= n <= 35,
            n == active_len(count),
            sum == sum_allocations(recipients@.take(i as int)),
            sum <= i * 0xffff_ffff_ffff_ffff,
        decreases n - i,
    {
        assert(recipients@.take(i + 1).drop_last() =~= recipients@.take(i as int));
        sum = sum + recipients.entries[i].allocation as u128;
        i += 1;
    }
    sum
}

/// Adds the inputs to the list, in their order, and seals the list if `seal`
/// is set. Sealing cannot be undone.
///
/// Returns the record of the recipients added and, where the list was sealed,
/// the record of the sealing. On an error nothing changes.
#[verifier::loop_isolation(false)]
pub fn add_recipients(ctx: &mut AddRecipients, inputs: Vec<RecipientInput>, seal: bool) -> (res:
    Result<(RecipientsAdded, Option<RecipientsAdded>), VestingError>)
    ensures
        match add_recipients_spec(*old(ctx), inputs@, seal) {
            Err(e) => res == Err::<(RecipientsAdded, Option<RecipientsAdded>), VestingError>(e)
                && *final(ctx) == *old(ctx),
            Ok(outcome) => {
                &&& res == Ok::<(RecipientsAdded, Option<RecipientsAdded>), VestingError>(
                    (outcome.added, outcome.sealing),
                )
                &&& final(ctx).schedule_state == outcome.state
                &&& final(ctx).recipients@ == outcome.entries
                &&& final(ctx).admin == old(ctx).admin
            },
        },
        forall|now_ts: i64| #[trigger]
            invariants_kept(
                old(ctx).schedule_state,
                old(ctx).recipients@,
                final(ctx).schedule_state,
                final(ctx).recipients@,
                now_ts,
            ),
{
    let state = ctx.schedule_state;
    if !(ctx.admin == state.admin) {
        return Err(VestingError::UnauthorizedAdmin);
    }
    if state.sealed {
        return Err(VestingError::RecipientsSealed);
    }
    if state.duration_months != DURATION_MONTHS {
        return Err(VestingError::InvalidConfig);
    }
    let ghost existing = ctx.recipients.active(state.recipient_count);
    let ghost first_entries = ctx.recipients@;
    let mut recipients = ctx.recipients;
    let mut count: u8 = state.recipient_count;
    let mut added: u8 = 0;
    let mut i: usize = 0;
    while i < inputs.len()
        invariant
            i <= inputs@.len(),
            existing == first_entries.take(active_len(state.recipient_count)),
            first_input_error(existing, inputs@, i as nat) is None,
            i > 0 ==> state.recipient_count + i <= 35,
            count == state.recipient_count + i,
            added == i,
            recipients@ == entries_with_added(
                first_entries,
                state.recipient_count as int,
                inputs@.take(i as int),
            ),
            first_entries.len() == 35,
        decreases inputs@.len() - i,
    {
        let input = inputs[i];
        let ghost refused = input_error(existing, inputs@, i as int);
        if input.wallet.is_default() {
            proof {
                assert(first_input_error(existing, inputs@, (i + 1) as nat) == refused);
                lemma_first_input_error_stays(existing, inputs@, (i + 1) as nat, inputs@.len());
            }
            return Err(VestingError::InvalidPubkey);
        }
        if input.allocation == 0 {
            proof {
                assert(first_input_error(existing, inputs@, (i + 1) as nat) == refused);
                lemma_first_input_error_stays(existing, inputs@, (i + 1) as nat, inputs@.len());
            }
            return Err(VestingError::InvalidAllocation);
        }
        if count as usize >= MAX_RECIPIENTS {
            proof {
                assert(first_input_error(existing, inputs@, (i + 1) as nat) == refused);
                lemma_first_input_error_stays(existing, inputs@, (i + 1) as nat, inputs@.len());
            }
            return Err(VestingError::RecipientListFull);
        }
        match find_recipient(&recipients, count, &input.wallet) {
            Some(at) => {
                proof {
                    if at < state.recipient_count {
                        assert(existing[at as int].wallet == input.wallet);
                    } else {
                        assert(inputs@[at - state.recipient_count].wallet == input.wallet);
                    }
                    assert(refused == Some(VestingError::DuplicateRecipient));
                    assert(first_input_error(existing, inputs@, (i + 1) as nat) == refused);
                    lemma_first_input_error_stays(existing, inputs@, (i + 1) as nat, inputs@.len());
                }
                return Err(VestingError::DuplicateRecipient);
            },
            None => {
                proof {
                    assert forall|j: int| 0 <= j < existing.len() implies existing[j].wallet
                        != input.wallet by {
                        assert(recipients@[j].wallet != input.wallet);
                    }
                    assert forall|j: int| 0 <= j < i implies inputs@[j].wallet
                        != input.wallet by {
                        assert(recipients@[state.recipient_count + j].wallet != input.wallet);
                    }
                    assert(refused is None);
                }
            },
        }
        let entry = RecipientEntry::new(input);
        recipients.entries[count as usize] = entry;
        proof {
            assert(recipients@ =~= entries_with_added(
                first_entries,
                state.recipient_count as int,
                inputs@.take(i + 1),
            ));
        }
        count = count + 1;
        added = added + 1;
        i += 1;
    }
    proof {
        assert(inputs@.take(inputs@.len() as int) =~= inputs@);
    }
    let sum: u128 = allocations_sum_u128(&recipients, count);
    if sum > state.total_supply as u128 {
        return Err(VestingError::AllocationSumExceedsTotalSupply);
    }
    if seal && sum != state.total_supply as u128 {
        return Err(VestingError::AllocationSumMismatchAtSeal);
    }
    let mut new_state = state;
    new_state.recipient_count = count;
    if seal {
        new_state.sealed = true;
    }
    proof {
        assert forall|now_ts: i64| #[trigger]
            invariants_kept(state, first_entries, new_state, recipients@, now_ts) by {
            lemma_add_keeps_invariants(*old(ctx), inputs@, seal, now_ts);
        }
    }
    ctx.schedule_state = new_state;
    ctx.recipients = recipients;
    let first = RecipientsAdded { count_added: added, new_total: count, sealed: false };
    let second = if seal {
        Some(RecipientsAdded { count_added: 0, new_total: count, sealed: true })
    } else {
        None
    };
    Ok((first, second))
}

} // verus!
