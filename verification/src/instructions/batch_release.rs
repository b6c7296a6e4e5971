//! Release of what has vested to several recipients in one transaction.

use vstd::prelude::*;
use crate::constants::MAX_BATCH_RELEASE;
use crate::error::VestingError;
use crate::instructions::release_to_recipient::{
    apply_release, check_destination, destination_error, entries_after_release,
    lemma_plan_release_spec, lemma_release_keeps_invariants, plan_release, plan_release_spec,
    release_event, state_after_release, ReleasePlan,
};
use crate::invariants::{invariants_kept, lemma_invariants_kept_twice, lemma_unchanged_keeps};
use crate::pubkey::{associated_token_address_spec, expected_ata_address, Pubkey};
use crate::state::recipients::{RecipientEntry, Recipients};
use crate::state::schedule_state::ScheduleState;
use crate::state::token_account::TokenAccount;

verus! {

/// The accounts of a batch release. The destinations come beside them, one
/// for each wallet of the batch.
#[derive(Clone, Copy, Debug, PartialEq, Eq)]
pub struct BatchRelease {
    /// The schedule.
    pub schedule_state: ScheduleState,
    /// The list of recipients.
    pub recipients: Recipients,
    /// The vault that the tokens leave, as it stands before the batch.
    pub vault: TokenAccount,
    /// The signer, who must be the distributor.
    pub distributor: Pubkey,
}

/// Record of the release to one recipient of a batch.
#[derive(Clone, Copy, Debug, PartialEq, Eq)]
pub struct TokensReleasedBatchItem {
    /// Wallet of the recipient.
    pub wallet: Pubkey,
    /// Month of the schedule at the time of the release.
    pub month_index: u8,
    /// Amount moved from the vault to the recipient.
    pub amount: u64,
    /// Allocation of the recipient.
    pub allocation: u64,
    /// Amount released to the recipient so far, this release included.
    pub released_total: u64,
}

/// The record of a release of a batch that was carried out from `entries`.
pub open spec fn batch_item_event(entries: Seq<RecipientEntry>, plan: ReleasePlan) -> TokensReleasedBatchItem {
    TokensReleasedBatchItem {
        wallet: release_event(entries, plan).wallet,
        month_index: release_event(entries, plan).month_index,
        amount: release_event(entries, plan).amount,
        allocation: release_event(entries, plan).allocation,
        released_total: release_event(entries, plan).released_total,
    }
}

/// What is decided for one wallet of a batch, with `vault_balance` left in the
/// vault: the destination is checked, then the release is decided as
/// `plan_release_spec` says.
pub open spec fn batch_item_spec(
    state: ScheduleState,
    entries: Seq<RecipientEntry>,
    vault_balance: u64,
    wallet: Pubkey,
    destination: TokenAccount,
    expected_ata: Option<Seq<u8>>,
    now_ts: i64,
) -> Result<Option<ReleasePlan>, VestingError> {
    match destination_error(state.mint, wallet, destination, expected_ata) {
        Some(e) => Err(e),
        None => plan_release_spec(state, entries, vault_balance, wallet, now_ts),
    }
}

/// Releases to one wallet of a batch: checks the destination against
/// `expected_ata`, the address derived for the wallet and the schedule's mint,
/// decides the release against what is left in the vault, and books it.
///
/// On an error, and where nothing is released, nothing changes. Where a plan
/// is carried out, the recipient and the schedule have released its amount
/// more, and the vault balance is less by it.
pub fn release_batch_item(
    state: &mut ScheduleState,
    recipients: &mut Recipients,
    vault_balance: &mut u64,
    wallet: &Pubkey,
    destination: &TokenAccount,
    expected_ata: &Option<Pubkey>,
    now_ts: i64,
) -> (res: Result<Option<TokensReleasedBatchItem>, VestingError>)
    ensures
        match batch_item_spec(
            *old(state),
            old(recipients)@,
            *old(vault_balance),
            *wallet,
            *destination,
            match *expected_ata {
                Some(key) => Some(key@),
                None => None,
            },
            now_ts,
        ) {
            Err(e) => {
                &&& res == Err::<Option<TokensReleasedBatchItem>, VestingError>(e)
                &&& *final(state) == *old(state)
                &&& *final(recipients) == *old(recipients)
                &&& *final(vault_balance) == *old(vault_balance)
            },
            Ok(None) => {
                &&& res == Ok::<Option<TokensReleasedBatchItem>, VestingError>(None)
                &&& *final(state) == *old(state)
                &&& *final(recipients) == *old(recipients)
                &&& *final(vault_balance) == *old(vault_balance)
            },
            Ok(Some(plan)) => {
                &&& res == Ok::<Option<TokensReleasedBatchItem>, VestingError>(
                    Some(batch_item_event(old(recipients)@, plan)),
                )
                &&& *final(state) == state_after_release(*old(state), plan.amount)
                &&& final(recipients)@ == entries_after_release(old(recipients)@, plan)
                &&& *final(vault_balance) == *old(vault_balance) - plan.amount
            },
        },
        invariants_kept(*old(state), old(recipients)@, *final(state), final(recipients)@, now_ts),
{
    check_destination(&state.mint, wallet, destination, expected_ata)?;
    let plan = match plan_release(state, recipients, *vault_balance, wallet, now_ts)? {
        Some(plan) => plan,
        None => {
            return Ok(None);
        },
    };
    proof {
        lemma_release_keeps_invariants(
            *state,
            recipients@,
            *vault_balance,
            *wallet,
            now_ts,
            plan,
        );
    }
    let event = apply_release(state, recipients, &plan);
    *vault_balance = *vault_balance - plan.amount;
    Ok(
        Some(
            TokensReleasedBatchItem {
                wallet: event.wallet,
                month_index: event.month_index,
                amount: event.amount,
                allocation: event.allocation,
                released_total: event.released_total,
            },
        ),
    )
}

/// Where a batch stands after some of its wallets: the schedule, the list,
/// what is left in the vault, and for each wallet so far the record of its
/// release, or `None` where nothing was released to it.
pub struct BatchProgress {
    /// The schedule.
    pub state: ScheduleState,
    /// The list of recipients.
    pub entries: Seq<RecipientEntry>,
    /// What is left in the vault.
    pub vault_balance: u64,
    /// The records so far, one place for each wallet.
    pub items: Seq<Option<TokensReleasedBatchItem>>,
}

/// Where the batch stands after its first `n` wallets, taken in order, or the
/// error of the first wallet that fails. Each wallet is released to against
/// what the wallets before it have left in the vault.
pub open spec fn batch_fold(
    state: ScheduleState,
    entries: Seq<RecipientEntry>,
    vault_balance: u64,
    wallets: Seq<Pubkey>,
    destinations: Seq<TokenAccount>,
    now_ts: i64,
    n: nat,
) -> Result<BatchProgress, VestingError>
    decreases n,
{
    if n == 0 {
        Ok(BatchProgress { state, entries, vault_balance, items: Seq::empty() })
    } else {
        match batch_fold(
            state,
            entries,
            vault_balance,
            wallets,
            destinations,
            now_ts,
            (n - 1) as nat,
        ) {
            Err(e) => Err(e),
            Ok(p) => match batch_item_spec(
                p.state,
                p.entries,
                p.vault_balance,
                wallets[n - 1],
                destinations[n - 1],
                associated_token_address_spec(wallets[n - 1], p.state.mint),
                now_ts,
            ) {
                Err(e) => Err(e),
                Ok(None) => Ok(BatchProgress { items: p.items.push(None), ..p }),
                Ok(Some(plan)) => Ok(
                    BatchProgress {
                        state: state_after_release(p.state, plan.amount),
                        entries: entries_after_release(p.entries, plan),
                        vault_balance: (p.vault_balance - plan.amount) as u64,
                        items: p.items.push(Some(batch_item_event(p.entries, plan))),
                    },
                ),
            },
        }
    }
}

/// Once a wallet of the batch has failed, the batch has failed with its error.
pub proof fn lemma_batch_fold_error(
    state: ScheduleState,
    entries: Seq<RecipientEntry>,
    vault_balance: u64,
    wallets: Seq<Pubkey>,
    destinations: Seq<TokenAccount>,
    now_ts: i64,
    i: nat,
    n: nat,
)
    requires
        i <= n,
        batch_fold(state, entries, vault_balance, wallets, destinations, now_ts, i) is Err,
    ensures
        batch_fold(state, entries, vault_balance, wallets, destinations, now_ts, n) == batch_fold(
            state,
            entries,
            vault_balance,
            wallets,
            destinations,
            now_ts,
            i,
        ),
    decreases n,
{
    if i < n {
        lemma_batch_fold_error(
            state,
            entries,
            vault_balance,
            wallets,
            destinations,
            now_ts,
            i,
            (n - 1) as nat,
        );
    }
}

/// A batch that succeeds keeps the invariants, holds the slots at their
/// number, and has one place in its records for each wallet.
pub proof fn lemma_batch_keeps_invariants(
    state: ScheduleState,
    slots: Seq<RecipientEntry>,
    vault_balance: u64,
    wallets: Seq<Pubkey>,
    destinations: Seq<TokenAccount>,
    now_ts: i64,
    n: nat,
)
    requires
        slots.len() == 35,
        batch_fold(state, slots, vault_balance, wallets, destinations, now_ts, n) is Ok,
    ensures
        ({
            let p = batch_fold(
                state,
                slots,
                vault_balance,
                wallets,
                destinations,
                now_ts,
                n,
            )->Ok_0;
            &&& invariants_kept(state, slots, p.state, p.entries, now_ts)
            &&& p.entries.len() == 35
            &&& p.items.len() == n
        }),
    decreases n,
{
    if n == 0 {
        lemma_unchanged_keeps(state, slots, now_ts);
    } else {
        lemma_batch_keeps_invariants(
            state,
            slots,
            vault_balance,
            wallets,
            destinations,
            now_ts,
            (n - 1) as nat,
        );
        let q = batch_fold(
            state,
            slots,
            vault_balance,
            wallets,
            destinations,
            now_ts,
            (n - 1) as nat,
        )->Ok_0;
        let p = batch_fold(state, slots, vault_balance, wallets, destinations, now_ts, n)->Ok_0;
        let decided = batch_item_spec(
            q.state,
            q.entries,
            q.vault_balance,
            wallets[n - 1],
            destinations[n - 1],
            associated_token_address_spec(wallets[n - 1], q.state.mint),
            now_ts,
        );
        match decided->Ok_0 {
            None => {
                lemma_unchanged_keeps(q.state, q.entries, now_ts);
            },
            Some(plan) => {
                lemma_release_keeps_invariants(
                    q.state,
                    q.entries,
                    q.vault_balance,
                    wallets[n - 1],
                    now_ts,
                    plan,
                );
            },
        }
        lemma_invariants_kept_twice(
            state,
            slots,
            q.state,
            q.entries,
            p.state,
            p.entries,
            now_ts,
        );
    }
}

/// Sum of the amounts of the records of a batch.
pub open spec fn items_total(items: Seq<Option<TokensReleasedBatchItem>>) -> int
    decreases items.len(),
{
    if items.len() == 0 {
        0
    } else {
        items_total(items.drop_last()) + match items.last() {
            Some(item) => item.amount as int,
            None => 0,
        }
    }
}

/// Conservation: what a batch that succeeds takes from the vault is what it
/// adds to the released supply, and is the sum of the amounts of its records.
pub proof fn lemma_batch_conserves(
    state: ScheduleState,
    slots: Seq<RecipientEntry>,
    vault_balance: u64,
    wallets: Seq<Pubkey>,
    destinations: Seq<TokenAccount>,
    now_ts: i64,
    n: nat,
)
    requires
        slots.len() == 35,
        batch_fold(state, slots, vault_balance, wallets, destinations, now_ts, n) is Ok,
    ensures
        ({
            let p = batch_fold(
                state,
                slots,
                vault_balance,
                wallets,
                destinations,
                now_ts,
                n,
            )->Ok_0;
            &&& p.state.released_supply - state.released_supply == items_total(p.items)
            &&& vault_balance - p.vault_balance == items_total(p.items)
            &&& p.entries.len() == 35
        }),
    decreases n,
{
    if n > 0 {
        lemma_batch_conserves(
            state,
            slots,
            vault_balance,
            wallets,
            destinations,
            now_ts,
            (n - 1) as nat,
        );
        let q = batch_fold(
            state,
            slots,
            vault_balance,
            wallets,
            destinations,
            now_ts,
            (n - 1) as nat,
        )->Ok_0;
        let p = batch_fold(state, slots, vault_balance, wallets, destinations, now_ts, n)->Ok_0;
        assert(p.items.drop_last() =~= q.items);
        let decided = batch_item_spec(
            q.state,
            q.entries,
            q.vault_balance,
            wallets[n - 1],
            destinations[n - 1],
            associated_token_address_spec(wallets[n - 1], q.state.mint),
            now_ts,
        );
        match decided->Ok_0 {
            None => {},
            Some(plan) => {
                lemma_plan_release_spec(
                    q.state,
                    q.entries,
                    q.vault_balance,
                    wallets[n - 1],
                    now_ts,
                    plan,
                );
            },
        }
    }
}

/// What a batch release decides.
///
/// The list must be sealed and the schedule not paused; the signer must be the
/// distributor; the batch must name one to five wallets, with one destination
/// for each; the vault must be of the schedule's mint. As long as nothing has
/// been released, the vault must hold exactly the total supply as the batch
/// begins. Then the wallets are released to in order.
pub open spec fn batch_release_spec(
    ctx: BatchRelease,
    wallets: Seq<Pubkey>,
    destinations: Seq<TokenAccount>,
    now_ts: i64,
) -> Result<BatchProgress, VestingError> {
    let state = ctx.schedule_state;
    if !state.sealed {
        Err(VestingError::RecipientsNotSealed)
    } else if state.paused {
        Err(VestingError::SchedulePaused)
    } else if ctx.distributor != state.distributor {
        Err(VestingError::UnauthorizedDistributor)
    } else if wallets.len() == 0 {
        Err(VestingError::EmptyBatch)
    } else if wallets.len() > 5 {
        Err(VestingError::BatchTooLarge)
    } else if destinations.len() != wallets.len() {
        Err(VestingError::DestinationCountMismatch)
    } else if ctx.vault.mint != state.mint {
        Err(VestingError::InvalidTokenMint)
    } else if state.released_supply == 0 && ctx.vault.amount != state.total_supply {
        Err(VestingError::VaultNotExactlyFunded)
    } else {
        batch_fold(
            state,
            ctx.recipients@,
            ctx.vault.amount,
            wallets,
            destinations,
            now_ts,
            wallets.len(),
        )
    }
}

/// Releases to each of `wallets`, in order, what has vested at `now_ts` and has
/// not been released yet. `destinations` holds the token account of each
/// wallet, in the same order.
///
/// Returns, for each wallet, the record of its release, whose amount is to be
/// moved from the vault to its destination, or `None` where nothing is to be
/// moved. A revoked recipient and one that has received all that has vested
/// are passed over. If any wallet fails, the batch fails and nothing changes.
#[verifier::loop_isolation(false)]
pub fn batch_release(
    ctx: &mut BatchRelease,
    wallets: Vec<Pubkey>,
    destinations: Vec<TokenAccount>,
    now_ts: i64,
) -> (res: Result<Vec<Option<TokensReleasedBatchItem>>, VestingError>)
    ensures
        match batch_release_spec(*old(ctx), wallets@, destinations@, now_ts) {
            Err(e) => res matches Err(err) && err == e && *final(ctx) == *old(ctx),
            Ok(p) => {
                &&& res matches Ok(items) && items@ == p.items
                &&& p.items.len() == wallets@.len()
                &&& final(ctx).schedule_state == p.state
                &&& final(ctx).recipients@ == p.entries
                &&& final(ctx).vault == old(ctx).vault
                &&& final(ctx).distributor == old(ctx).distributor
            },
        },
        invariants_kept(
            old(ctx).schedule_state,
            old(ctx).recipients@,
            final(ctx).schedule_state,
            final(ctx).recipients@,
            now_ts,
        ),
{
    let first_state = ctx.schedule_state;
    if !first_state.sealed {
        return Err(VestingError::RecipientsNotSealed);
    }
    if first_state.paused {
        return Err(VestingError::SchedulePaused);
    }
    if !(ctx.distributor == first_state.distributor) {
        return Err(VestingError::UnauthorizedDistributor);
    }
    let n: usize = wallets.len();
    if n == 0 {
        return Err(VestingError::EmptyBatch);
    }
    if n > MAX_BATCH_RELEASE {
        return Err(VestingError::BatchTooLarge);
    }
    if destinations.len() != n {
        return Err(VestingError::DestinationCountMismatch);
    }
    if !(ctx.vault.mint == first_state.mint) {
        return Err(VestingError::InvalidTokenMint);
    }
    if first_state.released_supply == 0 && ctx.vault.amount != first_state.total_supply {
        return Err(VestingError::VaultNotExactlyFunded);
    }
    let mut state = first_state;
    let mut recipients = ctx.recipients;
    let mut vault_balance: u64 = ctx.vault.amount;
    let mut items: Vec<Option<TokensReleasedBatchItem>> = Vec::new();
    let ghost first_entries = ctx.recipients@;
    let ghost first_balance = ctx.vault.amount;
    let mut i: usize = 0;
    while i < n
        invariant
            i <= n,
            n == wallets@.len(),
            n == destinations@.len(),
            items@.len() == i,
            batch_fold(
                first_state,
                first_entries,
                first_balance,
                wallets@,
                destinations@,
                now_ts,
                i as nat,
            ) == Ok::<BatchProgress, VestingError>(
                BatchProgress { state, entries: recipients@, vault_balance, items: items@ },
            ),
        decreases n - i,
    {
        let expected_ata = match expected_ata_address(&wallets[i], &state.mint) {
            Ok(key) => Some(key),
            Err(_) => None,
        };
        let item = match release_batch_item(
            &mut state,
            &mut recipients,
            &mut vault_balance,
            &wallets[i],
            &destinations[i],
            &expected_ata,
            now_ts,
        ) {
            Ok(item) => item,
            Err(e) => {
                proof {
                    assert(batch_fold(
                        first_state,
                        first_entries,
                        first_balance,
                        wallets@,
                        destinations@,
                        now_ts,
                        (i + 1) as nat,
                    ) == Err::<BatchProgress, VestingError>(e));
                    lemma_batch_fold_error(
                        first_state,
                        first_entries,
                        first_balance,
                        wallets@,
                        destinations@,
                        now_ts,
                        (i + 1) as nat,
                        n as nat,
                    );
                }
                return Err(e);
            },
        };
        items.push(item);
        i += 1;
    }
    proof {
        lemma_batch_keeps_invariants(
            first_state,
            first_entries,
            first_balance,
            wallets@,
            destinations@,
            now_ts,
            n as nat,
        );
    }
    ctx.schedule_state = state;
    ctx.recipients = recipients;
    Ok(items)
}

} // verus!
