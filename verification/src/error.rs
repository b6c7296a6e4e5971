//! Error codes of the vesting schedule.

use vstd::prelude::*;

verus! {

/// Every way an operation of the schedule can fail. Each error is fatal to the
/// operation that raised it: the operation leaves the state as it found it.
#[derive(Clone, Copy, Debug, PartialEq, Eq, Structural)]
pub enum VestingError {
    /// The signer is not the schedule's admin.
    UnauthorizedAdmin,
    /// The signer is not the schedule's distributor.
    UnauthorizedDistributor,
    /// A key is the zero key.
    InvalidPubkey,
    /// A configuration value is not acceptable.
    InvalidConfig,
    /// A timestamp or civil date is out of range.
    InvalidTimestamp,
    /// The recipients list is sealed.
    RecipientsSealed,
    /// The recipients list is not sealed.
    RecipientsNotSealed,
    /// The recipients list has no free slot.
    RecipientListFull,
    /// The wallet is already in the list.
    DuplicateRecipient,
    /// An allocation must be greater than zero.
    InvalidAllocation,
    /// The allocations add up to more than the total supply.
    AllocationSumExceedsTotalSupply,
    /// At sealing the allocations must add up to exactly the total supply.
    AllocationSumMismatchAtSeal,
    /// The schedule is paused.
    SchedulePaused,
    /// The schedule is not paused.
    ScheduleNotPaused,
    /// The current time is before the start of the schedule.
    BeforeStart,
    /// The batch names too many recipients.
    BatchTooLarge,
    /// The batch names no recipient.
    EmptyBatch,
    /// The wallet is not in the list.
    RecipientNotFound,
    /// The recipient has already been revoked.
    RecipientRevoked,
    /// The account is not owned by the token program.
    InvalidTokenProgram,
    /// The token mint is not the schedule's mint.
    InvalidTokenMint,
    /// The token account does not belong to the expected owner.
    InvalidTokenAccount,
    /// The destination is not the recipient's associated token account.
    InvalidRecipientAta,
    /// The vault holds less than the amount to move.
    InsufficientVaultBalance,
    /// The deposit would take the vault above the total supply.
    OverDeposit,
    /// Deposits are accepted only before the start of the schedule.
    DepositAfterStart,
    /// The vault must hold exactly the total supply at the first release.
    VaultNotExactlyFunded,
    /// An integer result does not fit its type.
    MathOverflow,
    /// The vesting period has not ended yet.
    SweepBeforeEnd,
    /// A recipient that was not revoked has not received its full allocation.
    SweepNotAllowedOutstanding,
    /// The batch does not come with one destination for each wallet.
    DestinationCountMismatch,
}

} // verus!
