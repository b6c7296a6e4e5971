use vesting::error::VestingError;
use vesting::instructions::add_recipients::{add_recipients, AddRecipients};
use vesting::instructions::batch_release::{
    batch_release, release_batch_item, BatchRelease, TokensReleasedBatchItem,
};
use vesting::instructions::deposit_tokens::{deposit_tokens, DepositTokens};
use vesting::instructions::emit_vesting_quote::{emit_vesting_quote, EmitVestingQuote, VestingQuote};
use vesting::instructions::initialize_schedule::{initialize_schedule, InitializeSchedule};
use vesting::instructions::pause::{pause, Pause};
use vesting::instructions::release_to_recipient::{
    check_destination, plan_release, release_to_recipient, release_to_recipient_with_ata,
    ReleasePlan, ReleaseToRecipient, TokensReleased,
};
use vesting::instructions::revoke_recipient::{revoke_recipient, RevokeRecipient};
use vesting::instructions::sweep_dust_after_end::{
    recipients_settled, sweep_dust_after_end, DustSwept, SweepDustAfterEnd,
};
use vesting::instructions::unpause::{unpause, Unpause};
use vesting::pubkey::{expected_ata_address, schedule_state_address, vault_address, Pubkey};
use vesting::state::recipients::{find_recipient, RecipientInput, Recipients};
use vesting::state::schedule_state::ScheduleState;
use vesting::state::token_account::TokenAccount;
use vesting::utils::calendar::{unix_from_datetime, DateTimeUtc};

fn key(n: u8) -> Pubkey {
    Pubkey::new_from_array([n; 32])
}

fn at(y: i32, m: u32, d: u32) -> i64 {
    unix_from_datetime(DateTimeUtc { year: y, month: m, day: d, sod: 0 }).unwrap()
}

/// Start of the schedule of these tests: 2025-01-15. Month `n` begins on the
/// 15th of the n-th month from January 2025.
fn month(n: u32) -> i64 {
    let months = n - 1;
    at(2025 + (months / 12) as i32, 1 + months % 12, 15)
}

fn the_program() -> Pubkey {
    key(250)
}

fn the_state_key() -> Pubkey {
    schedule_state_address(&the_program()).unwrap()
}

fn the_admin() -> Pubkey {
    key(1)
}

fn the_distributor() -> Pubkey {
    key(2)
}

fn the_mint() -> Pubkey {
    key(3)
}

const A: u8 = 10;
const B: u8 = 11;
const C: u8 = 12;

fn sealed_schedule(allocations: &[(u8, u64)]) -> (ScheduleState, Recipients) {
    let total: u64 = allocations.iter().map(|a| a.1).sum();
    let mut init = InitializeSchedule {
        program_id: the_program(),
        schedule_state_key: the_state_key(),
        schedule_state: ScheduleState {
            mint: Pubkey::default(),
            admin: Pubkey::default(),
            distributor: Pubkey::default(),
            start_ts: 0,
            duration_months: 0,
            paused: false,
            total_supply: 0,
            released_supply: 0,
            recipient_count: 0,
            sealed: false,
        },
        recipients: Recipients::empty(),
        mint: the_mint(),
        admin: the_admin(),
    };
    initialize_schedule(&mut init, the_distributor(), month(1), total).unwrap();
    let mut add = AddRecipients {
        schedule_state: init.schedule_state,
        recipients: init.recipients,
        admin: the_admin(),
    };
    let inputs: Vec<RecipientInput> = allocations
        .iter()
        .map(|a| RecipientInput { wallet: key(a.0), allocation: a.1 })
        .collect();
    add_recipients(&mut add, inputs, true).unwrap();
    (add.schedule_state, add.recipients)
}

fn vault(amount: u64) -> TokenAccount {
    TokenAccount {
        key: vault_address(&the_state_key(), &the_program()).unwrap(),
        mint: the_mint(),
        owner: the_state_key(),
        amount,
    }
}

fn ata(wallet: u8) -> TokenAccount {
    TokenAccount {
        key: expected_ata_address(&key(wallet), &the_mint()).unwrap(),
        mint: the_mint(),
        owner: key(wallet),
        amount: 0,
    }
}

fn release_ctx(
    state: ScheduleState,
    recipients: Recipients,
    vault_amount: u64,
    wallet: u8,
) -> ReleaseToRecipient {
    ReleaseToRecipient {
        schedule_state: state,
        recipients,
        vault: vault(vault_amount),
        recipient_ata: ata(wallet),
        mint: the_mint(),
        distributor: the_distributor(),
    }
}

fn released_sum(state: &ScheduleState, recipients: &Recipients) -> u64 {
    recipients.entries[..state.recipient_count as usize]
        .iter()
        .map(|e| e.released_amount)
        .sum()
}

fn check_invariants(state: &ScheduleState, recipients: &Recipients, now: i64) {
    let n = state.recipient_count as usize;
    assert!(n <= 35);
    assert_eq!(state.released_supply, released_sum(state, recipients));
    let mut allocations: u128 = 0;
    for (i, e) in recipients.entries[..n].iter().enumerate() {
        assert!(e.released_amount <= e.allocation);
        assert_eq!(11 * e.monthly_amount + e.final_amount, e.allocation);
        allocations += e.allocation as u128;
        for other in recipients.entries[..i].iter() {
            assert!(other.wallet != e.wallet);
        }
        let k = vesting::utils::time::month_index(now, state.start_ts).unwrap_or(0);
        let vested = vesting::utils::accrual::vested_amount(e.monthly_amount, e.final_amount, k);
        assert!(e.released_amount <= vested.unwrap());
    }
    assert!(allocations <= state.total_supply as u128);
    if state.sealed {
        assert_eq!(allocations, state.total_supply as u128);
    }
}

#[test]
fn release_moves_what_has_vested() {
    let (state, recipients) = sealed_schedule(&[(A, 100), (B, 120)]);
    let mut ctx = release_ctx(state, recipients, 220, A);
    let res = release_to_recipient(&mut ctx, key(A), month(1));
    assert_eq!(
        res,
        Ok(Some(TokensReleased {
            wallet: key(A),
            month_index: 1,
            amount: 8,
            allocation: 100,
            released_total: 8,
        }))
    );
    assert_eq!(ctx.schedule_state, ScheduleState { released_supply: 8, ..state });
    assert_eq!(ctx.recipients.entries[0].released_amount, 8);
    assert_eq!(ctx.recipients.entries[1], recipients.entries[1]);
    assert_eq!(ctx.vault, vault(220));
    check_invariants(&ctx.schedule_state, &ctx.recipients, month(1));
}

#[test]
fn release_twice_in_a_month_moves_nothing_the_second_time() {
    let (state, recipients) = sealed_schedule(&[(A, 100), (B, 120)]);
    let mut ctx = release_ctx(state, recipients, 220, B);
    assert_eq!(
        release_to_recipient(&mut ctx, key(B), month(2)).unwrap().unwrap().amount,
        20
    );
    ctx.vault.amount = 200;
    let before = ctx;
    assert_eq!(release_to_recipient(&mut ctx, key(B), month(2) + 5), Ok(None));
    assert_eq!(release_to_recipient(&mut ctx, key(B), month(3) - 1), Ok(None));
    assert_eq!(ctx, before);
}

#[test]
fn catch_up() {
    let (state, recipients) = sealed_schedule(&[(A, 120)]);
    let mut ctx = release_ctx(state, recipients, 120, A);
    let first = release_to_recipient(&mut ctx, key(A), month(7)).unwrap().unwrap();
    assert_eq!(first.month_index, 7);
    assert_eq!(first.amount, 70);
    assert_eq!(first.released_total, 70);
    ctx.vault.amount = 50;
    let second = release_to_recipient(&mut ctx, key(A), month(12)).unwrap().unwrap();
    assert_eq!(second.month_index, 12);
    assert_eq!(second.amount, 50);
    assert_eq!(second.released_total, 120);
    assert_eq!(ctx.schedule_state.released_supply, 120);
    check_invariants(&ctx.schedule_state, &ctx.recipients, month(12));
}

#[test]
fn two_releases_move_what_one_later_release_moves() {
    let (state, recipients) = sealed_schedule(&[(A, 1_000_003), (B, 77)]);
    for (a, b) in [(1u32, 2u32), (2, 7), (3, 12), (5, 5), (11, 12), (12, 14)] {
        let mut twice = release_ctx(state, recipients, 1_000_080, A);
        let first = release_to_recipient(&mut twice, key(A), month(a)).unwrap();
        let moved_first = first.map_or(0, |e| e.amount);
        twice.vault.amount -= moved_first;
        let second = release_to_recipient(&mut twice, key(A), month(b) + 3).unwrap();
        let moved_second = second.map_or(0, |e| e.amount);

        let mut once = release_ctx(state, recipients, 1_000_080, A);
        let single = release_to_recipient(&mut once, key(A), month(b) + 3).unwrap();
        assert_eq!(single.map_or(0, |e| e.amount), moved_first + moved_second);
        assert_eq!(once.schedule_state, twice.schedule_state);
        assert_eq!(once.recipients, twice.recipients);
    }
}

#[test]
fn release_after_the_end_completes_the_allocation() {
    let (state, recipients) = sealed_schedule(&[(A, 100), (B, 1_000_003)]);
    let mut ctx = release_ctx(state, recipients, 1_000_103, A);
    release_to_recipient(&mut ctx, key(A), month(4)).unwrap();
    ctx.vault.amount -= 32;
    let last = release_to_recipient(&mut ctx, key(A), month(13)).unwrap().unwrap();
    assert_eq!(last.month_index, 12);
    assert_eq!(last.amount, 68);
    assert_eq!(ctx.recipients.entries[0].released_amount, 100);

    let mut ctx_b = release_ctx(ctx.schedule_state, ctx.recipients, 1_000_003, B);
    let all = release_to_recipient(&mut ctx_b, key(B), month(40)).unwrap().unwrap();
    assert_eq!(all.amount, 1_000_003);
    assert_eq!(ctx_b.recipients.entries[1].released_amount, 1_000_003);
    assert_eq!(ctx_b.schedule_state.released_supply, 1_000_103);
    assert_eq!(ctx_b.schedule_state.released_supply, ctx_b.schedule_state.total_supply);
    check_invariants(&ctx_b.schedule_state, &ctx_b.recipients, month(40));
}

#[test]
fn first_release_funding_gate() {
    let (state, recipients) = sealed_schedule(&[(A, 1_000_000)]);
    assert_eq!(state.total_supply, 1_000_000);
    let mut ctx = release_ctx(state, recipients, 999_999, A);
    let before = ctx;
    assert_eq!(
        release_to_recipient(&mut ctx, key(A), month(1)),
        Err(VestingError::VaultNotExactlyFunded)
    );
    assert_eq!(ctx, before);

    let deposit = DepositTokens {
        schedule_state: state,
        vault: ctx.vault,
        admin_token_account: TokenAccount {
            key: key(60),
            mint: the_mint(),
            owner: the_admin(),
            amount: 10,
        },
        admin: the_admin(),
    };
    let event = deposit_tokens(&deposit, 1, month(1) - 1).unwrap();
    assert_eq!(event.vault_balance, 1_000_000);
    ctx.vault.amount = event.vault_balance;
    let released = release_to_recipient(&mut ctx, key(A), month(1)).unwrap().unwrap();
    assert_eq!(released.amount, 83_333);
}

#[test]
fn funding_gate_rejects_an_overfunded_vault_too() {
    let (state, recipients) = sealed_schedule(&[(A, 1_000)]);
    let mut ctx = release_ctx(state, recipients, 1_001, A);
    assert_eq!(
        release_to_recipient(&mut ctx, key(A), month(1)),
        Err(VestingError::VaultNotExactlyFunded)
    );
}

#[test]
fn funding_gate_holds_for_the_first_release_only() {
    let (state, recipients) = sealed_schedule(&[(A, 120), (B, 120)]);
    let mut ctx = release_ctx(state, recipients, 240, A);
    release_to_recipient(&mut ctx, key(A), month(1)).unwrap().unwrap();
    let mut next = release_ctx(ctx.schedule_state, ctx.recipients, 200, B);
    assert_eq!(
        release_to_recipient(&mut next, key(B), month(1)).unwrap().unwrap().amount,
        10
    );
    next.vault.amount = 9;
    assert_eq!(
        release_to_recipient(&mut next, key(B), month(2)),
        Err(VestingError::InsufficientVaultBalance)
    );
    next.vault.amount = 10;
    assert_eq!(
        release_to_recipient(&mut next, key(B), month(2)).unwrap().unwrap().amount,
        10
    );
}

#[test]
fn pause_blocks_releases_and_accrual_goes_on() {
    let (state, recipients) = sealed_schedule(&[(A, 120)]);
    let mut ctx = release_ctx(state, recipients, 120, A);
    let early = release_to_recipient(&mut ctx, key(A), month(2)).unwrap().unwrap();
    assert_eq!(early.amount, 20);
    ctx.vault.amount = 100;

    let mut p = Pause { schedule_state: ctx.schedule_state, admin: the_admin() };
    pause(&mut p).unwrap();
    ctx.schedule_state = p.schedule_state;
    let paused = ctx;
    assert_eq!(
        release_to_recipient(&mut ctx, key(A), month(3)),
        Err(VestingError::SchedulePaused)
    );
    assert_eq!(
        release_to_recipient(&mut ctx, key(A), month(6)),
        Err(VestingError::SchedulePaused)
    );
    assert_eq!(ctx, paused);

    let mut u = Unpause { schedule_state: ctx.schedule_state, admin: the_admin() };
    unpause(&mut u).unwrap();
    ctx.schedule_state = u.schedule_state;
    let late = release_to_recipient(&mut ctx, key(A), month(7)).unwrap().unwrap();
    assert_eq!(late.month_index, 7);
    assert_eq!(late.amount, 70 - 20);
    assert_eq!(late.released_total, 70);
}

#[test]
fn release_to_a_revoked_recipient_is_a_silent_no_op() {
    let (state, recipients) = sealed_schedule(&[(A, 120), (B, 120)]);
    let mut r = RevokeRecipient { schedule_state: state, recipients, admin: the_admin() };
    revoke_recipient(&mut r, key(B)).unwrap();
    let mut ctx = release_ctx(r.schedule_state, r.recipients, 240, B);
    let before = ctx;
    assert_eq!(release_to_recipient(&mut ctx, key(B), month(3)), Ok(None));
    assert_eq!(ctx, before);
    // Before the start too: the recipient is looked up before the month is.
    assert_eq!(release_to_recipient(&mut ctx, key(B), month(1) - 1), Ok(None));
}

#[test]
fn revoked_recipient_keeps_what_it_received() {
    let (state, recipients) = sealed_schedule(&[(A, 120), (B, 120)]);
    let mut ctx = release_ctx(state, recipients, 240, B);
    release_to_recipient(&mut ctx, key(B), month(2)).unwrap().unwrap();
    let mut r = RevokeRecipient {
        schedule_state: ctx.schedule_state,
        recipients: ctx.recipients,
        admin: the_admin(),
    };
    revoke_recipient(&mut r, key(B)).unwrap();
    assert_eq!(r.recipients.entries[1].released_amount, 20);
    assert_eq!(r.schedule_state.released_supply, 20);
    check_invariants(&r.schedule_state, &r.recipients, month(2));
}

#[test]
fn release_rejections_before_the_recipient_is_looked_up() {
    let (state, recipients) = sealed_schedule(&[(A, 120)]);
    let ctx = release_ctx(state, recipients, 120, A);

    let mut c = ctx;
    c.schedule_state.sealed = false;
    assert_eq!(
        release_to_recipient(&mut c, key(A), month(1)),
        Err(VestingError::RecipientsNotSealed)
    );
    let mut c = ctx;
    c.schedule_state.paused = true;
    assert_eq!(release_to_recipient(&mut c, key(A), month(1)), Err(VestingError::SchedulePaused));
    let mut c = ctx;
    c.distributor = the_admin();
    assert_eq!(
        release_to_recipient(&mut c, key(A), month(1)),
        Err(VestingError::UnauthorizedDistributor)
    );
    let mut c = ctx;
    c.mint = key(78);
    assert_eq!(release_to_recipient(&mut c, key(A), month(1)), Err(VestingError::InvalidTokenMint));
    let mut c = ctx;
    c.vault.mint = key(78);
    assert_eq!(release_to_recipient(&mut c, key(A), month(1)), Err(VestingError::InvalidTokenMint));
    let mut c = ctx;
    c.recipient_ata.key = key(78);
    assert_eq!(
        release_to_recipient(&mut c, key(A), month(1)),
        Err(VestingError::InvalidRecipientAta)
    );
    let mut c = ctx;
    c.recipient_ata = ata(B);
    assert_eq!(
        release_to_recipient(&mut c, key(A), month(1)),
        Err(VestingError::InvalidRecipientAta)
    );
    let mut c = ctx;
    c.recipient_ata.mint = key(78);
    assert_eq!(release_to_recipient(&mut c, key(A), month(1)), Err(VestingError::InvalidTokenMint));
    let mut c = ctx;
    c.recipient_ata.owner = key(78);
    assert_eq!(
        release_to_recipient(&mut c, key(A), month(1)),
        Err(VestingError::InvalidTokenAccount)
    );
}

#[test]
fn release_rejections_after_the_checks_of_the_accounts() {
    let (state, recipients) = sealed_schedule(&[(A, 120)]);
    let ctx = release_ctx(state, recipients, 120, A);

    let mut c = ctx;
    c.recipient_ata = ata(C);
    assert_eq!(
        release_to_recipient(&mut c, key(C), month(1)),
        Err(VestingError::RecipientNotFound)
    );
    let mut c = ctx;
    assert_eq!(release_to_recipient(&mut c, key(A), month(1) - 1), Err(VestingError::BeforeStart));
    let mut c = ctx;
    c.schedule_state.start_ts = -5;
    assert_eq!(release_to_recipient(&mut c, key(A), 0), Err(VestingError::InvalidTimestamp));
    let mut c = ctx;
    c.recipients.entries[0].released_amount = 11;
    c.schedule_state.released_supply = 11;
    c.vault.amount = 109;
    assert_eq!(release_to_recipient(&mut c, key(A), month(1)), Err(VestingError::MathOverflow));
    let mut c = ctx;
    c.recipients.entries[0].monthly_amount = u64::MAX;
    assert_eq!(release_to_recipient(&mut c, key(A), month(2)), Err(VestingError::MathOverflow));
    let mut c = ctx;
    c.schedule_state.released_supply = u64::MAX;
    assert_eq!(release_to_recipient(&mut c, key(A), month(1)), Err(VestingError::MathOverflow));
    let mut c = ctx;
    c.schedule_state.released_supply = 1;
    c.vault.amount = 9;
    let before = c;
    assert_eq!(
        release_to_recipient(&mut c, key(A), month(1)),
        Err(VestingError::InsufficientVaultBalance)
    );
    assert_eq!(c, before);
}

#[test]
fn release_with_ata_takes_the_derived_address_as_given() {
    let (state, recipients) = sealed_schedule(&[(A, 120)]);
    let mut ctx = release_ctx(state, recipients, 120, A);
    ctx.recipient_ata.key = key(90);
    let before = ctx;
    assert_eq!(
        release_to_recipient_with_ata(&mut ctx, key(A), month(1), None),
        Err(VestingError::InvalidRecipientAta)
    );
    assert_eq!(
        release_to_recipient_with_ata(&mut ctx, key(A), month(1), Some(key(91))),
        Err(VestingError::InvalidRecipientAta)
    );
    assert_eq!(ctx, before);
    let event = release_to_recipient_with_ata(&mut ctx, key(A), month(3), Some(key(90)));
    assert_eq!(event.unwrap().unwrap().amount, 30);
}

#[test]
fn check_destination_orders_its_errors() {
    let dest = TokenAccount { key: key(5), mint: key(6), owner: key(7), amount: 0 };
    assert_eq!(check_destination(&key(6), &key(7), &dest, &Some(key(5))), Ok(()));
    assert_eq!(
        check_destination(&key(8), &key(8), &dest, &Some(key(4))),
        Err(VestingError::InvalidRecipientAta)
    );
    assert_eq!(
        check_destination(&key(8), &key(8), &dest, &Some(key(5))),
        Err(VestingError::InvalidTokenMint)
    );
    assert_eq!(
        check_destination(&key(6), &key(8), &dest, &Some(key(5))),
        Err(VestingError::InvalidTokenAccount)
    );
    assert_eq!(
        check_destination(&key(6), &key(7), &dest, &None),
        Err(VestingError::InvalidRecipientAta)
    );
}

#[test]
fn plan_release_decides_without_changing_anything() {
    let (state, recipients) = sealed_schedule(&[(A, 100), (B, 120)]);
    assert_eq!(
        plan_release(&state, &recipients, 220, &key(B), month(5)),
        Ok(Some(ReleasePlan { index: 1, month_index: 5, amount: 50 }))
    );
    assert_eq!(
        plan_release(&state, &recipients, 49, &key(B), month(5)),
        Err(VestingError::InsufficientVaultBalance)
    );
    assert_eq!(
        plan_release(&state, &recipients, 50, &key(A), month(12)),
        Err(VestingError::InsufficientVaultBalance)
    );
    assert_eq!(
        plan_release(&state, &recipients, 100, &key(A), month(12)),
        Ok(Some(ReleasePlan { index: 0, month_index: 12, amount: 100 }))
    );
}

#[test]
fn find_recipient_looks_at_the_slots_in_use_only() {
    let (state, mut recipients) = sealed_schedule(&[(A, 100), (B, 120)]);
    assert_eq!(find_recipient(&recipients, state.recipient_count, &key(A)), Some(0));
    assert_eq!(find_recipient(&recipients, state.recipient_count, &key(B)), Some(1));
    assert_eq!(find_recipient(&recipients, state.recipient_count, &key(C)), None);
    assert_eq!(find_recipient(&recipients, 1, &key(B)), None);
    assert_eq!(find_recipient(&recipients, 0, &key(A)), None);
    recipients.entries[34].wallet = key(C);
    assert_eq!(find_recipient(&recipients, 34, &key(C)), None);
    assert_eq!(find_recipient(&recipients, 35, &key(C)), Some(34));
    assert_eq!(find_recipient(&recipients, 255, &key(C)), Some(34));
    // The first of two slots with the same wallet is found.
    recipients.entries[1].wallet = key(A);
    assert_eq!(find_recipient(&recipients, 2, &key(A)), Some(0));
}

fn batch_ctx(state: ScheduleState, recipients: Recipients, vault_amount: u64) -> BatchRelease {
    BatchRelease {
        schedule_state: state,
        recipients,
        vault: vault(vault_amount),
        distributor: the_distributor(),
    }
}

#[test]
fn batch_with_revoked() {
    let (state, recipients) = sealed_schedule(&[(A, 120), (B, 120), (C, 120)]);
    let mut r = RevokeRecipient { schedule_state: state, recipients, admin: the_admin() };
    revoke_recipient(&mut r, key(B)).unwrap();
    let mut ctx = batch_ctx(r.schedule_state, r.recipients, 360);
    let items = batch_release(
        &mut ctx,
        vec![key(A), key(B), key(C)],
        vec![ata(A), ata(B), ata(C)],
        month(3),
    )
    .unwrap();
    assert_eq!(
        items,
        vec![
            Some(TokensReleasedBatchItem {
                wallet: key(A),
                month_index: 3,
                amount: 30,
                allocation: 120,
                released_total: 30,
            }),
            None,
            Some(TokensReleasedBatchItem {
                wallet: key(C),
                month_index: 3,
                amount: 30,
                allocation: 120,
                released_total: 30,
            }),
        ]
    );
    assert_eq!(ctx.schedule_state.released_supply, 60);
    assert_eq!(ctx.recipients.entries[0].released_amount, 30);
    assert_eq!(ctx.recipients.entries[1].released_amount, 0);
    assert_eq!(ctx.recipients.entries[1].revoked, 1);
    assert_eq!(ctx.recipients.entries[2].released_amount, 30);
    assert_eq!(ctx.vault.amount, 360);
    check_invariants(&ctx.schedule_state, &ctx.recipients, month(3));
}

#[test]
fn batch_skips_a_wallet_named_twice() {
    let (state, recipients) = sealed_schedule(&[(A, 120), (B, 120)]);
    let mut ctx = batch_ctx(state, recipients, 240);
    let items = batch_release(
        &mut ctx,
        vec![key(A), key(A), key(B)],
        vec![ata(A), ata(A), ata(B)],
        month(2),
    )
    .unwrap();
    assert_eq!(items.len(), 3);
    assert_eq!(items[0].unwrap().amount, 20);
    assert_eq!(items[1], None);
    assert_eq!(items[2].unwrap().amount, 20);
    assert_eq!(ctx.schedule_state.released_supply, 40);
}

#[test]
fn batch_counts_the_vault_down_item_by_item() {
    let (state, recipients) = sealed_schedule(&[(A, 120), (B, 120)]);
    let mut first = batch_ctx(state, recipients, 240);
    batch_release(&mut first, vec![key(A)], vec![ata(A)], month(1)).unwrap();

    // 10 already released to A; at month 3 A is owed 20 more and B 30.
    let mut ctx = batch_ctx(first.schedule_state, first.recipients, 49);
    let before = ctx;
    assert_eq!(
        batch_release(&mut ctx, vec![key(A), key(B)], vec![ata(A), ata(B)], month(3)),
        Err(VestingError::InsufficientVaultBalance)
    );
    assert_eq!(ctx, before);
    ctx.vault.amount = 50;
    let items =
        batch_release(&mut ctx, vec![key(A), key(B)], vec![ata(A), ata(B)], month(3)).unwrap();
    assert_eq!(items[0].unwrap().amount, 20);
    assert_eq!(items[1].unwrap().amount, 30);
    assert_eq!(ctx.schedule_state.released_supply, 60);
}

#[test]
fn batch_is_all_or_nothing() {
    let (state, recipients) = sealed_schedule(&[(A, 120), (B, 120), (C, 120)]);
    let mut ctx = batch_ctx(state, recipients, 360);
    let before = ctx;
    assert_eq!(
        batch_release(
            &mut ctx,
            vec![key(A), key(B), key(77)],
            vec![ata(A), ata(B), ata(77)],
            month(3),
        ),
        Err(VestingError::RecipientNotFound)
    );
    assert_eq!(ctx, before);
    let mut wrong = ata(C);
    wrong.owner = key(A);
    assert_eq!(
        batch_release(
            &mut ctx,
            vec![key(A), key(B), key(C)],
            vec![ata(A), ata(B), wrong],
            month(3),
        ),
        Err(VestingError::InvalidTokenAccount)
    );
    assert_eq!(
        batch_release(
            &mut ctx,
            vec![key(A), key(B), key(C)],
            vec![ata(A), ata(C), ata(B)],
            month(3),
        ),
        Err(VestingError::InvalidRecipientAta)
    );
    assert_eq!(ctx, before);
}

#[test]
fn batch_shape_is_checked() {
    let (state, recipients) = sealed_schedule(&[(A, 120), (B, 120)]);
    let mut ctx = batch_ctx(state, recipients, 240);
    let before = ctx;
    assert_eq!(batch_release(&mut ctx, vec![], vec![], month(1)), Err(VestingError::EmptyBatch));
    assert_eq!(
        batch_release(&mut ctx, vec![key(A); 6], vec![ata(A); 6], month(1)),
        Err(VestingError::BatchTooLarge)
    );
    assert_eq!(
        batch_release(&mut ctx, vec![key(A), key(B)], vec![ata(A)], month(1)),
        Err(VestingError::DestinationCountMismatch)
    );
    assert_eq!(
        batch_release(&mut ctx, vec![key(A)], vec![ata(A), ata(B)], month(1)),
        Err(VestingError::DestinationCountMismatch)
    );
    assert_eq!(
        batch_release(&mut ctx, vec![key(A)], vec![], month(1)),
        Err(VestingError::DestinationCountMismatch)
    );
    assert_eq!(ctx, before);
    let items = batch_release(&mut ctx, vec![key(A); 5], vec![ata(A); 5], month(1)).unwrap();
    assert_eq!(items.len(), 5);
    assert_eq!(items[0].unwrap().amount, 10);
    assert!(items[1..].iter().all(|i| i.is_none()));
}

#[test]
fn batch_preconditions_are_those_of_a_release() {
    let (state, recipients) = sealed_schedule(&[(A, 120)]);
    let ctx = batch_ctx(state, recipients, 120);
    let mut c = ctx;
    c.schedule_state.sealed = false;
    assert_eq!(
        batch_release(&mut c, vec![key(A)], vec![ata(A)], month(1)),
        Err(VestingError::RecipientsNotSealed)
    );
    let mut c = ctx;
    c.schedule_state.paused = true;
    assert_eq!(
        batch_release(&mut c, vec![key(A)], vec![ata(A)], month(1)),
        Err(VestingError::SchedulePaused)
    );
    let mut c = ctx;
    c.distributor = key(77);
    assert_eq!(
        batch_release(&mut c, vec![key(A)], vec![ata(A)], month(1)),
        Err(VestingError::UnauthorizedDistributor)
    );
    let mut c = ctx;
    c.vault.mint = key(77);
    assert_eq!(
        batch_release(&mut c, vec![key(A)], vec![ata(A)], month(1)),
        Err(VestingError::InvalidTokenMint)
    );
    let mut c = ctx;
    c.vault.amount = 119;
    assert_eq!(
        batch_release(&mut c, vec![key(A)], vec![ata(A)], month(1)),
        Err(VestingError::VaultNotExactlyFunded)
    );
    let mut c = ctx;
    assert_eq!(
        batch_release(&mut c, vec![key(A)], vec![ata(A)], month(1) - 1),
        Err(VestingError::BeforeStart)
    );
}

#[test]
fn batch_item_books_against_the_balance_left() {
    let (mut state, mut recipients) = sealed_schedule(&[(A, 120), (B, 120)]);
    let mut balance: u64 = 25;
    let dest = TokenAccount { key: key(90), mint: the_mint(), owner: key(A), amount: 0 };
    let item = release_batch_item(
        &mut state,
        &mut recipients,
        &mut balance,
        &key(A),
        &dest,
        &Some(key(90)),
        month(2),
    );
    assert_eq!(item.unwrap().unwrap().amount, 20);
    assert_eq!(balance, 5);
    assert_eq!(state.released_supply, 20);
    let dest_b = TokenAccount { key: key(91), mint: the_mint(), owner: key(B), amount: 0 };
    let before = (state, recipients, balance);
    let item = release_batch_item(
        &mut state,
        &mut recipients,
        &mut balance,
        &key(B),
        &dest_b,
        &Some(key(91)),
        month(2),
    );
    assert_eq!(item, Err(VestingError::InsufficientVaultBalance));
    assert_eq!((state, recipients, balance), before);
}

#[test]
fn quote_says_what_a_release_would_move() {
    let (state, recipients) = sealed_schedule(&[(A, 100), (B, 120)]);
    let mut ctx = release_ctx(state, recipients, 220, B);
    release_to_recipient(&mut ctx, key(B), month(2)).unwrap();
    let quote_ctx = EmitVestingQuote {
        schedule_state: ctx.schedule_state,
        recipients: ctx.recipients,
    };
    assert_eq!(
        emit_vesting_quote(&quote_ctx, key(B), month(7)),
        Ok(VestingQuote {
            wallet: key(B),
            month_index: 7,
            vested_amount: 70,
            released_amount: 20,
            releasable: 50,
        })
    );
    assert_eq!(
        emit_vesting_quote(&quote_ctx, key(A), month(12)),
        Ok(VestingQuote {
            wallet: key(A),
            month_index: 12,
            vested_amount: 100,
            released_amount: 0,
            releasable: 100,
        })
    );
    assert_eq!(
        emit_vesting_quote(&quote_ctx, key(C), month(7)),
        Err(VestingError::RecipientNotFound)
    );
    assert_eq!(
        emit_vesting_quote(&quote_ctx, key(A), month(1) - 1),
        Err(VestingError::BeforeStart)
    );
    assert_eq!(
        emit_vesting_quote(&quote_ctx, key(C), month(1) - 1),
        Err(VestingError::BeforeStart)
    );
}

#[test]
fn quote_needs_neither_seal_nor_pause_state() {
    let (state, recipients) = sealed_schedule(&[(A, 100)]);
    let quote_ctx = EmitVestingQuote {
        schedule_state: ScheduleState { sealed: false, paused: true, ..state },
        recipients,
    };
    assert_eq!(emit_vesting_quote(&quote_ctx, key(A), month(3)).unwrap().releasable, 24);
    let mut corrupt = quote_ctx;
    corrupt.recipients.entries[0].released_amount = 25;
    assert_eq!(
        emit_vesting_quote(&corrupt, key(A), month(3)),
        Err(VestingError::MathOverflow)
    );
}

fn sweep_ctx(state: ScheduleState, recipients: Recipients, vault_amount: u64) -> SweepDustAfterEnd {
    SweepDustAfterEnd {
        schedule_state: state,
        recipients,
        vault: vault(vault_amount),
        admin_destination: TokenAccount {
            key: key(61),
            mint: the_mint(),
            owner: the_admin(),
            amount: 0,
        },
        mint: the_mint(),
        admin: the_admin(),
    }
}

#[test]
fn sweep_after_the_end_takes_what_is_left() {
    let (state, recipients) = sealed_schedule(&[(A, 100), (B, 120)]);
    let mut r = RevokeRecipient { schedule_state: state, recipients, admin: the_admin() };
    revoke_recipient(&mut r, key(B)).unwrap();
    let mut rel = release_ctx(r.schedule_state, r.recipients, 220, A);
    release_to_recipient(&mut rel, key(A), month(13)).unwrap().unwrap();

    let ctx = sweep_ctx(rel.schedule_state, rel.recipients, 120);
    assert_eq!(
        sweep_dust_after_end(&ctx, month(13)),
        Ok(DustSwept { admin: the_admin(), amount: 120 })
    );
    assert_eq!(
        sweep_dust_after_end(&sweep_ctx(rel.schedule_state, rel.recipients, 0), month(13)),
        Ok(DustSwept { admin: the_admin(), amount: 0 })
    );
    assert_eq!(sweep_dust_after_end(&ctx, month(13) - 1), Err(VestingError::SweepBeforeEnd));
    assert_eq!(sweep_dust_after_end(&ctx, month(1) - 1), Err(VestingError::SweepBeforeEnd));
}

#[test]
fn sweep_waits_for_outstanding_allocations() {
    let (state, recipients) = sealed_schedule(&[(A, 100), (B, 120)]);
    let mut rel = release_ctx(state, recipients, 220, A);
    release_to_recipient(&mut rel, key(A), month(13)).unwrap().unwrap();
    assert!(!recipients_settled(&rel.recipients, 2));
    assert!(recipients_settled(&rel.recipients, 1));
    let ctx = sweep_ctx(rel.schedule_state, rel.recipients, 120);
    assert_eq!(
        sweep_dust_after_end(&ctx, month(13)),
        Err(VestingError::SweepNotAllowedOutstanding)
    );
}

#[test]
fn sweep_rejections() {
    let (state, recipients) = sealed_schedule(&[(A, 100)]);
    let mut rel = release_ctx(state, recipients, 100, A);
    release_to_recipient(&mut rel, key(A), month(14)).unwrap().unwrap();
    let ctx = sweep_ctx(rel.schedule_state, rel.recipients, 0);
    let mut c = ctx;
    c.admin = key(77);
    assert_eq!(sweep_dust_after_end(&c, month(14)), Err(VestingError::UnauthorizedAdmin));
    let mut c = ctx;
    c.mint = key(77);
    assert_eq!(sweep_dust_after_end(&c, month(14)), Err(VestingError::InvalidTokenMint));
    let mut c = ctx;
    c.vault.mint = key(77);
    assert_eq!(sweep_dust_after_end(&c, month(14)), Err(VestingError::InvalidTokenMint));
    let mut c = ctx;
    c.admin_destination.mint = key(77);
    assert_eq!(sweep_dust_after_end(&c, month(14)), Err(VestingError::InvalidTokenMint));
    let mut c = ctx;
    c.admin_destination.owner = key(77);
    assert_eq!(sweep_dust_after_end(&c, month(14)), Err(VestingError::InvalidTokenAccount));
    let mut c = ctx;
    c.schedule_state.start_ts = -1;
    assert_eq!(sweep_dust_after_end(&c, month(14)), Err(VestingError::InvalidTimestamp));
}

#[test]
fn invariants_hold_along_a_history() {
    let (state, recipients) = sealed_schedule(&[(A, 1_000_003), (B, 77), (C, 120)]);
    let mut state = state;
    let mut recipients = recipients;
    let mut vault_amount: u64 = state.total_supply;
    check_invariants(&state, &recipients, month(1) - 1);
    let mut last_supply = 0u64;
    for m in 1..=14u32 {
        if m == 5 {
            let mut r = RevokeRecipient { schedule_state: state, recipients, admin: the_admin() };
            revoke_recipient(&mut r, key(C)).unwrap();
            recipients = r.recipients;
        }
        let mut ctx = batch_ctx(state, recipients, vault_amount);
        let wallets = if m % 2 == 0 { vec![key(A), key(C)] } else { vec![key(B), key(C), key(A)] };
        let dests = wallets.iter().map(|w| ata(w.to_bytes()[0])).collect();
        let items = batch_release(&mut ctx, wallets, dests, month(m)).unwrap();
        for item in items.iter().flatten() {
            vault_amount -= item.amount;
        }
        for (old, new) in recipients.entries.iter().zip(ctx.recipients.entries.iter()) {
            assert!(new.released_amount >= old.released_amount);
            assert!(new.revoked >= old.revoked);
            assert_eq!(new.wallet, old.wallet);
            assert_eq!(new.allocation, old.allocation);
        }
        state = ctx.schedule_state;
        recipients = ctx.recipients;
        assert!(state.released_supply >= last_supply);
        last_supply = state.released_supply;
        assert_eq!(vault_amount + state.released_supply, state.total_supply);
        check_invariants(&state, &recipients, month(m));
    }
    assert_eq!(recipients.entries[0].released_amount, 1_000_003);
    assert_eq!(recipients.entries[1].released_amount, 77);
    assert_eq!(recipients.entries[2].released_amount, 40);
}

#[test]
fn successful_release_leaves_exactly_what_has_vested() {
    let (state, recipients) = sealed_schedule(&[(A, 1_000_003), (B, 77)]);
    let mut state = state;
    let mut recipients = recipients;
    let mut vault_amount = state.total_supply;
    for m in [1u32, 1, 2, 5, 5, 9, 12, 13, 20] {
        for wallet in [A, B] {
            let mut ctx = release_ctx(state, recipients, vault_amount, wallet);
            let res = release_to_recipient(&mut ctx, key(wallet), month(m)).unwrap();
            vault_amount -= res.map_or(0, |e| e.amount);
            state = ctx.schedule_state;
            recipients = ctx.recipients;
            let i = find_recipient(&recipients, state.recipient_count, &key(wallet)).unwrap();
            let e = recipients.entries[i];
            let k = vesting::utils::time::month_index(month(m), state.start_ts).unwrap();
            assert_eq!(
                Ok(e.released_amount),
                vesting::utils::accrual::vested_amount(e.monthly_amount, e.final_amount, k)
            );
            check_invariants(&state, &recipients, month(m));
        }
    }
}

#[test]
fn release_after_a_pause_pays_seven_months_less_what_was_released() {
    for (allocation, released_in_month) in [(120u64, 0u32), (120, 1), (120, 3), (1_000_003, 2)] {
        let (state, recipients) = sealed_schedule(&[(A, allocation)]);
        let monthly = allocation / 12;
        let mut ctx = release_ctx(state, recipients, allocation, A);
        let mut released = 0;
        if released_in_month > 0 {
            let early = release_to_recipient(&mut ctx, key(A), month(released_in_month));
            released = early.unwrap().unwrap().amount;
            assert_eq!(released, monthly * released_in_month as u64);
            ctx.vault.amount -= released;
        }
        let mut p = Pause { schedule_state: ctx.schedule_state, admin: the_admin() };
        pause(&mut p).unwrap();
        ctx.schedule_state = p.schedule_state;
        for m in 3..7 {
            assert_eq!(
                release_to_recipient(&mut ctx, key(A), month(m)),
                Err(VestingError::SchedulePaused)
            );
        }
        let mut u = Unpause { schedule_state: ctx.schedule_state, admin: the_admin() };
        unpause(&mut u).unwrap();
        ctx.schedule_state = u.schedule_state;
        let late = release_to_recipient(&mut ctx, key(A), month(7)).unwrap().unwrap();
        assert_eq!(late.amount, 7 * monthly - released);
        assert_eq!(late.released_total, 7 * monthly);
        assert_eq!(ctx.recipients.entries[0].released_amount, 7 * monthly);
    }
}
