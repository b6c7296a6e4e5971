//! What the schedule reads of an account of the token ledger.

use vstd::prelude::*;
use crate::error::VestingError;
use crate::pubkey::{check_token_program, token_program_bytes, Pubkey};

verus! {

/// A token account of the ledger, as unpacked from its stored form.
#[derive(Clone, Copy, Debug, PartialEq, Eq)]
pub struct TokenAccount {
    /// Address of the account.
    pub key: Pubkey,
    /// Mint of the token that the account holds.
    pub mint: Pubkey,
    /// Owner of the account.
    pub owner: Pubkey,
    /// Balance of the account.
    pub amount: u64,
}

/// Whether the four bytes of `data` from `at` on are the tag of an optional
/// field: 0 for an absent value or 1 for a present one, as a little-endian
/// 32-bit number.
pub open spec fn option_tag_valid(data: Seq<u8>, at: int) -> bool {
    &&& data[at] == 0 || data[at] == 1
    &&& data[at + 1] == 0
    &&& data[at + 2] == 0
    &&& data[at + 3] == 0
}

/// Whether `data` is the stored form of a token account in use.
///
/// The stored form has 165 bytes: the mint (32 bytes), the owner (32), the
/// balance (8), the optional delegate (a tag of 4 bytes and 32), the state
/// (1), the optional reserve of a native account (4 and 8), the delegated
/// amount (8), and the optional close authority (4 and 32). The state is 1
/// for an account in use and 2 for a frozen one.
pub open spec fn token_account_data_valid(data: Seq<u8>) -> bool {
    &&& data.len() == 165
    &&& option_tag_valid(data, 72)
    &&& data[108] == 1 || data[108] == 2
    &&& option_tag_valid(data, 109)
    &&& option_tag_valid(data, 129)
}

/// The mint that the stored form of a token account holds.
pub open spec fn token_account_mint(data: Seq<u8>) -> Seq<u8> {
    data.subrange(0, 32)
}

/// The owner that the stored form of a token account holds.
pub open spec fn token_account_owner(data: Seq<u8>) -> Seq<u8> {
    data.subrange(32, 64)
}

/// The balance that the stored form of a token account holds: eight bytes,
/// the lowest first.
pub open spec fn token_account_amount(data: Seq<u8>) -> u64 {
    vstd::bytes::spec_u64_from_le_bytes(data.subrange(64, 72))
}

/// Calls `Pack::unpack` for `anchor_spl::token::spl_token::state::Account`.
///
/// Trusted: the outside function accepts exactly the data for which
/// `token_account_data_valid` holds, and reads the mint, the owner and the
/// balance from the first 72 bytes. It refuses any other length, a state
/// other than 1 or 2, and a malformed option tag; it does not panic.
#[verifier::external_body]
fn unpack_fields(data: &Vec<u8>) -> (res: Option<(Pubkey, Pubkey, u64)>)
    ensures
        res is Some <==> token_account_data_valid(data@),
        res matches Some((mint, owner, amount)) ==> {
            &&& mint@ == token_account_mint(data@)
            &&& owner@ == token_account_owner(data@)
            &&& amount == token_account_amount(data@)
        },
{
    let parsed: Result<anchor_spl::token::spl_token::state::Account, _> =
        anchor_lang::solana_program::program_pack::Pack::unpack(data.as_slice());
    match parsed {
        Ok(account) => Some(
            (
                Pubkey { bytes: account.mint.to_bytes() },
                Pubkey { bytes: account.owner.to_bytes() },
                account.amount,
            ),
        ),
        Err(_) => None,
    }
}

/// Why `unpack_token_account` refuses an account, if it does.
pub open spec fn unpack_token_account_error(program_owner: Pubkey, data: Seq<u8>) -> Option<
    VestingError,
> {
    if program_owner@ != token_program_bytes() {
        Some(VestingError::InvalidTokenProgram)
    } else if !token_account_data_valid(data) {
        Some(VestingError::InvalidTokenAccount)
    } else {
        None
    }
}

/// Unpacks the token account at `key` from `data`, the data of an account
/// that the program `program_owner` owns.
///
/// Fails with `InvalidTokenProgram` unless the token program owns the account,
/// and with `InvalidTokenAccount` where the data is not that of a token
/// account in use.
pub fn unpack_token_account(key: Pubkey, program_owner: &Pubkey, data: &Vec<u8>) -> (res: Result<
    TokenAccount,
    VestingError,
>)
    ensures
        match res {
            Ok(account) => {
                &&& unpack_token_account_error(*program_owner, data@) is None
                &&& account.key == key
                &&& account.mint@ == token_account_mint(data@)
                &&& account.owner@ == token_account_owner(data@)
                &&& account.amount == token_account_amount(data@)
            },
            Err(e) => unpack_token_account_error(*program_owner, data@) == Some(e),
        },
{
    check_token_program(program_owner)?;
    match unpack_fields(data) {
        Some((mint, owner, amount)) => Ok(TokenAccount { key, mint, owner, amount }),
        None => Err(VestingError::InvalidTokenAccount),
    }
}

} // verus!
