//! Account addresses, and the addresses that are derived from seeds.

use vstd::prelude::*;
use crate::error::VestingError;

verus! {

/// A 32-byte account address or public key.
#[derive(Clone, Copy, Debug)]
pub struct Pubkey {
    /// The bytes of the key.
    pub bytes: [u8; 32],
}

impl View for Pubkey {
    type V = Seq<u8>;

    open spec fn view(&self) -> Seq<u8> {
        self.bytes@
    }
}

impl PartialEq for Pubkey {
    fn eq(&self, other: &Pubkey) -> (r: bool) {
        let mut i: usize = 0;
        while i < 32
            invariant
                i <= 32,
                forall|j: int| 0 <= j < i ==> self.bytes[j] == other.bytes[j],
            decreases 32 - i,
        {
            if self.bytes[i] != other.bytes[i] {
                return false;
            }
            i += 1;
        }
        assert(self.bytes =~= other.bytes);
        true
    }
}

impl Eq for Pubkey {

}

impl vstd::std_specs::cmp::PartialEqSpecImpl for Pubkey {
    open spec fn obeys_eq_spec() -> bool {
        true
    }

    open spec fn eq_spec(&self, other: &Pubkey) -> bool {
        *self == *other
    }
}

impl Default for Pubkey {
    /// The zero key.
    fn default() -> (key: Pubkey)
        ensures
            key.is_zero(),
    {
        let key = Pubkey { bytes: [0u8;32] };
        assert(key@ =~= Seq::new(32, |i: int| 0u8));
        key
    }
}

impl Pubkey {
    /// Whether this is the zero key: 32 zero bytes. It stands for "no key".
    pub open spec fn is_zero(&self) -> bool {
        self@ == Seq::new(32, |i: int| 0u8)
    }

    /// Whether this is the zero key.
    pub fn is_default(&self) -> (zero: bool)
        ensures
            zero == self.is_zero(),
    {
        let zero_key = Pubkey::default();
        proof {
            if self@ == zero_key@ {
                lemma_pubkey_ext(*self, zero_key);
            }
        }
        *self == zero_key
    }

    /// The key with the given bytes.
    pub fn new_from_array(bytes: [u8; 32]) -> (key: Pubkey)
        ensures
            key.bytes == bytes,
    {
        Pubkey { bytes }
    }

    /// The bytes of the key.
    pub fn to_bytes(&self) -> (bytes: [u8; 32])
        ensures
            bytes == self.bytes,
    {
        self.bytes
    }

    /// The bytes of the key, as a seed for an address derivation.
    pub fn to_seed(&self) -> (seed: Vec<u8>)
        ensures
            seed@ == self@,
    {
        let mut seed: Vec<u8> = Vec::new();
        let mut i: usize = 0;
        while i < 32
            invariant
                i <= 32,
                seed@.len() == i,
                forall|j: int| 0 <= j < i ==> seed@[j] == self.bytes[j],
            decreases 32 - i,
        {
            seed.push(self.bytes[i]);
            i += 1;
        }
        assert(seed@ =~= self@);
        seed
    }
}

/// Two keys with the same bytes are the same key.
pub proof fn lemma_pubkey_ext(a: Pubkey, b: Pubkey)
    requires
        a@ == b@,
    ensures
        a == b,
{
    assert(a.bytes =~= b.bytes);
}

/// The program address that `seeds` and `program_id` derive: what
/// `Pubkey::try_find_program_address` of `anchor_lang` returns for them, the
/// bump seed left out. `None` where no address can be derived.
pub uninterp spec fn program_address(seeds: Seq<Seq<u8>>, program_id: Seq<u8>) -> Option<Seq<u8>>;

/// Calls `anchor_lang::prelude::Pubkey::try_find_program_address`.
///
/// Trusted: the address that comes back is a function of the seeds and the
/// program id alone, named `program_address`. The outside function hashes the
/// seeds, a bump seed and the program id, and tries the bump seeds from 255
/// down until the hash is no point of the curve; it returns `None` where none
/// is found or the seeds are too many or too long, and does not panic.
#[verifier::external_body]
fn try_find_program_address(seeds: &Vec<Vec<u8>>, program_id: &Pubkey) -> (res: Option<Pubkey>)
    ensures
        match res {
            Some(address) => program_address(seeds.deep_view(), program_id@) == Some(address@),
            None => program_address(seeds.deep_view(), program_id@) == None::<Seq<u8>>,
        },
{
    let slices: Vec<&[u8]> = seeds.iter().map(|seed| seed.as_slice()).collect();
    let id = anchor_lang::prelude::Pubkey::new_from_array(program_id.bytes);
    match anchor_lang::prelude::Pubkey::try_find_program_address(&slices, &id) {
        Some((address, _)) => Some(Pubkey { bytes: address.to_bytes() }),
        None => None,
    }
}

/// The bytes of the address of the token program.
pub open spec fn token_program_bytes() -> Seq<u8> {
    seq![
        6u8, 221, 246, 225, 215, 101, 161, 147, 217, 203, 225, 70, 206, 235, 121, 172, 28, 180,
        133, 237, 95, 91, 55, 145, 58, 140, 245, 133, 126, 255, 0, 169,
    ]
}

/// The bytes of the address of the associated token account program.
pub open spec fn associated_token_program_bytes() -> Seq<u8> {
    seq![
        140u8, 151, 37, 143, 78, 36, 137, 241, 187, 61, 16, 41, 20, 142, 13, 131, 11, 90, 19, 153,
        218, 255, 16, 132, 4, 142, 123, 216, 219, 233, 248, 89,
    ]
}

/// Reads `anchor_spl::token::ID`.
///
/// Trusted: the constant is the address `TokenkegQfeZyiNwAJbNbGKPFXCWuBvf9Ss623VQ5DA`,
/// whose 32 bytes are `token_program_bytes`.
#[verifier::external_body]
fn token_program_key() -> (id: Pubkey)
    ensures
        id@ == token_program_bytes(),
{
    Pubkey { bytes: anchor_spl::token::ID.to_bytes() }
}

/// Reads `anchor_spl::associated_token::ID`.
///
/// Trusted: the constant is the address `ATokenGPvbdGVxr1b2hvZbsiqW5xWH25efTNsLJA8knL`,
/// whose 32 bytes are `associated_token_program_bytes`.
#[verifier::external_body]
fn associated_token_program_key() -> (id: Pubkey)
    ensures
        id@ == associated_token_program_bytes(),
{
    Pubkey { bytes: anchor_spl::associated_token::ID.to_bytes() }
}

/// Checks that `owner`, the program that owns an account, is the token
/// program: only then does the account hold a token account of the ledger.
///
/// Fails with `InvalidTokenProgram` for any other owner.
pub fn check_token_program(owner: &Pubkey) -> (res: Result<(), VestingError>)
    ensures
        res == if owner@ == token_program_bytes() {
            Ok::<(), VestingError>(())
        } else {
            Err::<(), VestingError>(VestingError::InvalidTokenProgram)
        },
{
    let token_program = token_program_key();
    proof {
        if owner@ == token_program@ {
            lemma_pubkey_ext(*owner, token_program);
        }
    }
    if *owner == token_program {
        Ok(())
    } else {
        Err(VestingError::InvalidTokenProgram)
    }
}

/// Seed tag of the schedule state account: the ASCII bytes of `schedule_state`.
pub open spec fn schedule_state_tag() -> Seq<u8> {
    seq![115u8, 99, 104, 101, 100, 117, 108, 101, 95, 115, 116, 97, 116, 101]
}

/// Seed tag of the recipients account: the ASCII bytes of `recipients`.
pub open spec fn recipients_tag() -> Seq<u8> {
    seq![114u8, 101, 99, 105, 112, 105, 101, 110, 116, 115]
}

/// Seed tag of the vault account: the ASCII bytes of `vault`.
pub open spec fn vault_tag() -> Seq<u8> {
    seq![118u8, 97, 117, 108, 116]
}

/// Address of the schedule state account of the program `program_id`.
pub open spec fn schedule_state_address_spec(program_id: Pubkey) -> Option<Seq<u8>> {
    program_address(seq![schedule_state_tag()], program_id@)
}

/// Address of the recipients account that belongs to the schedule state
/// account at `schedule_state`.
pub open spec fn recipients_address_spec(schedule_state: Pubkey, program_id: Pubkey) -> Option<
    Seq<u8>,
> {
    program_address(seq![recipients_tag(), schedule_state@], program_id@)
}

/// Address of the vault that belongs to the schedule state account at
/// `schedule_state`.
pub open spec fn vault_address_spec(schedule_state: Pubkey, program_id: Pubkey) -> Option<
    Seq<u8>,
> {
    program_address(seq![vault_tag(), schedule_state@], program_id@)
}

/// Address of the associated token account of `owner` for `mint`: derived
/// from the owner, the token program and the mint, under the associated token
/// account program.
pub open spec fn associated_token_address_spec(owner: Pubkey, mint: Pubkey) -> Option<Seq<u8>> {
    program_address(
        seq![owner@, token_program_bytes(), mint@],
        associated_token_program_bytes(),
    )
}

/// Address of the schedule state account of the program `program_id`.
pub fn schedule_state_address(program_id: &Pubkey) -> (res: Option<Pubkey>)
    ensures
        match res {
            Some(address) => schedule_state_address_spec(*program_id) == Some(address@),
            None => schedule_state_address_spec(*program_id) == None::<Seq<u8>>,
        },
{
    let tag: Vec<u8> = vec![115u8, 99, 104, 101, 100, 117, 108, 101, 95, 115, 116, 97, 116, 101];
    let seeds: Vec<Vec<u8>> = vec![tag];
    assert(seeds.deep_view() =~= seq![schedule_state_tag()]) by {
        assert(seeds[0].deep_view() =~= schedule_state_tag());
    }
    try_find_program_address(&seeds, program_id)
}

/// Address of the recipients account that belongs to the schedule state
/// account at `schedule_state`.
pub fn recipients_address(schedule_state: &Pubkey, program_id: &Pubkey) -> (res: Option<Pubkey>)
    ensures
        match res {
            Some(address) => recipients_address_spec(*schedule_state, *program_id) == Some(
                address@,
            ),
            None => recipients_address_spec(*schedule_state, *program_id) == None::<Seq<u8>>,
        },
{
    let tag: Vec<u8> = vec![114u8, 101, 99, 105, 112, 105, 101, 110, 116, 115];
    let seeds: Vec<Vec<u8>> = vec![tag, schedule_state.to_seed()];
    assert(seeds.deep_view() =~= seq![recipients_tag(), schedule_state@]) by {
        assert(seeds[0].deep_view() =~= recipients_tag());
        assert(seeds[1].deep_view() =~= schedule_state@);
    }
    try_find_program_address(&seeds, program_id)
}

/// Address of the vault that belongs to the schedule state account at
/// `schedule_state`.
pub fn vault_address(schedule_state: &Pubkey, program_id: &Pubkey) -> (res: Option<Pubkey>)
    ensures
        match res {
            Some(address) => vault_address_spec(*schedule_state, *program_id) == Some(address@),
            None => vault_address_spec(*schedule_state, *program_id) == None::<Seq<u8>>,
        },
{
    let tag: Vec<u8> = vec![118u8, 97, 117, 108, 116];
    let seeds: Vec<Vec<u8>> = vec![tag, schedule_state.to_seed()];
    assert(seeds.deep_view() =~= seq![vault_tag(), schedule_state@]) by {
        assert(seeds[0].deep_view() =~= vault_tag());
        assert(seeds[1].deep_view() =~= schedule_state@);
    }
    try_find_program_address(&seeds, program_id)
}

/// Address of the associated token account of `owner` for `mint`.
///
/// Fails with `InvalidRecipientAta` where the owner and the mint derive no
/// address.
pub fn expected_ata_address(owner: &Pubkey, mint: &Pubkey) -> (res: Result<Pubkey, VestingError>)
    ensures
        match res {
            Ok(address) => associated_token_address_spec(*owner, *mint) == Some(address@),
            Err(e) => e == VestingError::InvalidRecipientAta && associated_token_address_spec(
                *owner,
                *mint,
            ) == None::<Seq<u8>>,
        },
{
    let token_program = token_program_key();
    let seeds: Vec<Vec<u8>> = vec![owner.to_seed(), token_program.to_seed(), mint.to_seed()];
    assert(seeds.deep_view() =~= seq![owner@, token_program_bytes(), mint@]) by {
        assert(seeds[0].deep_view() =~= owner@);
        assert(seeds[1].deep_view() =~= token_program_bytes());
        assert(seeds[2].deep_view() =~= mint@);
    }
    match try_find_program_address(&seeds, &associated_token_program_key()) {
        Some(address) => Ok(address),
        None => Err(VestingError::InvalidRecipientAta),
    }
}

} // verus!
