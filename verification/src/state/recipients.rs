//! The list of recipients of the schedule.

use vstd::prelude::*;
use crate::constants::MAX_RECIPIENTS;
use crate::pubkey::Pubkey;

verus! {

/// One recipient: a wallet, what it is owed in all, and what it has received.
#[derive(Clone, Copy, Debug, PartialEq, Eq)]
pub struct RecipientEntry {
    /// Wallet of the recipient.
    pub wallet: Pubkey,
    /// Total amount the recipient is entitled to.
    pub allocation: u64,
    /// Amount released to the recipient so far.
    pub released_amount: u64,
    /// Nonzero once the recipient has been revoked.
    pub revoked: u8,
    /// Fills the stored form up to a multiple of eight bytes.
    pub _padding: [u8; 7],
    /// Amount that vests in each of the first eleven months.
    pub monthly_amount: u64,
    /// Amount that vests in the twelfth month: the monthly amount and the
    /// remainder of the division.
    pub final_amount: u64,
}

impl Default for RecipientEntry {
    /// The entry of an unused slot.
    fn default() -> (entry: RecipientEntry)
        ensures
            entry.is_unused(),
    {
        RecipientEntry {
            wallet: Pubkey::default(),
            allocation: 0,
            released_amount: 0,
            revoked: 0,
            _padding: [0u8;7],
            monthly_amount: 0,
            final_amount: 0,
        }
    }
}

impl RecipientEntry {
    /// Size in bytes of the stored form of an entry.
    pub const SIZE: usize = 72;

    /// Whether the entry is that of an unused slot.
    pub open spec fn is_unused(&self) -> bool {
        &&& self.wallet.is_zero()
        &&& self.allocation == 0
        &&& self.released_amount == 0
        &&& self.revoked == 0
        &&& self.monthly_amount == 0
        &&& self.final_amount == 0
    }

    /// Whether the amounts of the entry fit together: the monthly and the
    /// final amount are those of the allocation, so that eleven monthly
    /// amounts and the final amount make up the allocation, and no more than
    /// the allocation has been released.
    pub open spec fn consistent(&self) -> bool {
        &&& self.allocation > 0
        &&& !self.wallet.is_zero()
        &&& self.monthly_amount == self.allocation / 12
        &&& self.final_amount == self.allocation / 12 + self.allocation % 12
        &&& 11 * self.monthly_amount + self.final_amount == self.allocation
        &&& self.released_amount <= self.allocation
    }

    /// The entry of a recipient that has just been added.
    pub open spec fn fresh(input: RecipientInput) -> RecipientEntry {
        RecipientEntry {
            wallet: input.wallet,
            allocation: input.allocation,
            released_amount: 0,
            revoked: 0,
            _padding: zero_padding(),
            monthly_amount: (input.allocation / 12) as u64,
            final_amount: (input.allocation / 12 + input.allocation % 12) as u64,
        }
    }

    /// The entry for a new recipient: nothing released, not revoked, the
    /// monthly and final amounts computed from the allocation.
    pub fn new(input: RecipientInput) -> (entry: RecipientEntry)
        ensures
            entry == RecipientEntry::fresh(input),
            input.allocation > 0 && !input.wallet.is_zero() ==> entry.consistent(),
    {
        let monthly_amount: u64 = input.allocation / 12;
        let remainder: u64 = input.allocation % 12;
        let padding: [u8; 7] = [0u8;7];
        RecipientEntry {
            wallet: input.wallet,
            allocation: input.allocation,
            released_amount: 0,
            revoked: 0,
            _padding: padding,
            monthly_amount,
            final_amount: monthly_amount + remainder,
        }
    }
}

/// Seven zero bytes.
pub open spec fn zero_padding() -> [u8; 7] {
    vstd::array::spec_array_fill_for_copy_type::<u8, 7>(0u8)
}

/// The list of recipients: a fixed array of slots, of which the schedule
/// state counts how many are in use.
#[derive(Clone, Copy, Debug, PartialEq, Eq)]
pub struct Recipients {
    /// The slots, in the order in which the recipients were added.
    pub entries: [RecipientEntry; MAX_RECIPIENTS],
}

impl View for Recipients {
    type V = Seq<RecipientEntry>;

    open spec fn view(&self) -> Seq<RecipientEntry> {
        self.entries@
    }
}

impl Recipients {
    /// Size in bytes of the stored form of the list, with its 8-byte tag.
    pub fn space() -> (bytes: usize)
        ensures
            bytes == 8 + 35 * 72,
    {
        8 + MAX_RECIPIENTS * RecipientEntry::SIZE
    }

    /// A list in which every slot is unused.
    pub fn empty() -> (list: Recipients)
        ensures
            forall|i: int| 0 <= i < 35 ==> (#[trigger] list@[i]).is_unused(),
    {
        Recipients { entries: [RecipientEntry::default();MAX_RECIPIENTS] }
    }

    /// The first `count` slots, or all 35 where `count` is more.
    pub open spec fn active(&self, count: u8) -> Seq<RecipientEntry> {
        self@.take(active_len(count))
    }
}

/// Number of slots in use for a recipient count: the count, or 35 where the
/// count is more.
pub open spec fn active_len(count: u8) -> int {
    if count <= 35 {
        count as int
    } else {
        35
    }
}

/// What is handed in for a new recipient: the wallet and the allocation.
#[derive(Clone, Copy, Debug, PartialEq, Eq)]
pub struct RecipientInput {
    /// Wallet of the recipient.
    pub wallet: Pubkey,
    /// Total amount the recipient is entitled to.
    pub allocation: u64,
}

/// Sum of the allocations of the entries.
pub open spec fn sum_allocations(entries: Seq<RecipientEntry>) -> int
    decreases entries.len(),
{
    if entries.len() == 0 {
        0
    } else {
        sum_allocations(entries.drop_last()) + entries.last().allocation
    }
}

/// Sum of the amounts released to the entries.
pub open spec fn sum_released(entries: Seq<RecipientEntry>) -> int
    decreases entries.len(),
{
    if entries.len() == 0 {
        0
    } else {
        sum_released(entries.drop_last()) + entries.last().released_amount
    }
}

/// Whether `i` is the first position of `entries` that holds `wallet`.
pub open spec fn is_first_match(entries: Seq<RecipientEntry>, wallet: Pubkey, i: int) -> bool {
    &&& 0 <= i < entries.len()
    &&& entries[i].wallet == wallet
    &&& forall|j: int| 0 <= j < i ==> entries[j].wallet != wallet
}

/// The first position of `entries` that holds `wallet`, if there is one.
pub open spec fn recipient_index(entries: Seq<RecipientEntry>, wallet: Pubkey) -> Option<int> {
    if exists|i: int| is_first_match(entries, wallet, i) {
        Some(choose|i: int| is_first_match(entries, wallet, i))
    } else {
        None
    }
}

/// The first match is `recipient_index`.
pub proof fn lemma_recipient_index_found(entries: Seq<RecipientEntry>, wallet: Pubkey, i: int)
    requires
        is_first_match(entries, wallet, i),
    ensures
        recipient_index(entries, wallet) == Some(i),
{
    let c = choose|c: int| is_first_match(entries, wallet, c);
    assert(is_first_match(entries, wallet, c));
    if c < i {
        assert(entries[c].wallet != wallet);
    }
    if i < c {
        assert(entries[i].wallet != wallet);
    }
}

/// Where no entry holds the wallet, there is no `recipient_index`.
pub proof fn lemma_recipient_index_none(entries: Seq<RecipientEntry>, wallet: Pubkey)
    requires
        forall|j: int| 0 <= j < entries.len() ==> entries[j].wallet != wallet,
    ensures
        recipient_index(entries, wallet) == None::<int>,
{
}

/// Position of the first of the first `count` slots that holds `wallet`.
pub fn find_recipient(recipients: &Recipients, count: u8, wallet: &Pubkey) -> (res: Option<usize>)
    ensures
        match res {
            Some(i) => {
                &&& recipient_index(recipients.active(count), *wallet) == Some(i as int)
                &&& is_first_match(recipients.active(count), *wallet, i as int)
                &&& i < active_len(count)
            },
            None => {
                &&& recipient_index(recipients.active(count), *wallet) == None::<int>
                &&& forall|j: int|
                    0 <= j < active_len(count) ==> recipients@[j].wallet != *wallet
            },
        },
{
    let n: usize = if count as usize <= MAX_RECIPIENTS { count as usize } else { MAX_RECIPIENTS };
    let mut i: usize = 0;
    while i < n
        invariant
            i <= n,
            n == active_len(count),
            forall|j: int| 0 <= j < i ==> recipients.active(count)[j].wallet != *wallet,
        decreases n - i,
    {
        if recipients.entries[i].wallet == *wallet {
            proof {
                lemma_recipient_index_found(recipients.active(count), *wallet, i as int);
            }
            return Some(i);
        }
        i += 1;
    }
    proof {
        lemma_recipient_index_none(recipients.active(count), *wallet);
        assert forall|j: int| 0 <= j < active_len(count) implies recipients@[j].wallet
            != *wallet by {
            assert(recipients.active(count)[j] == recipients@[j]);
        }
    }
    None
}

} // verus!
