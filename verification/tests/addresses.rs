use vesting::error::VestingError;
use vesting::pubkey::{
    check_token_program, expected_ata_address, recipients_address, schedule_state_address,
    vault_address, Pubkey,
};
use vesting::state::token_account::{unpack_token_account, TokenAccount};

fn addr(n: u8) -> Pubkey {
    Pubkey::new_from_array([n; 32])
}

fn outside(key: &Pubkey) -> anchor_lang::prelude::Pubkey {
    anchor_lang::prelude::Pubkey::new_from_array(key.to_bytes())
}

#[test]
fn keys_compare_by_their_bytes() {
    let mut bytes = [7u8; 32];
    assert!(Pubkey::new_from_array(bytes) == addr(7));
    bytes[31] = 8;
    assert!(Pubkey::new_from_array(bytes) != addr(7));
    bytes[31] = 7;
    bytes[0] = 0;
    assert!(Pubkey::new_from_array(bytes) != addr(7));
    assert_eq!(addr(9).to_bytes(), [9u8; 32]);
    assert_eq!(addr(9).to_seed(), vec![9u8; 32]);
}

#[test]
fn default_key_is_the_zero_key() {
    assert_eq!(Pubkey::default().to_bytes(), [0u8; 32]);
    assert!(Pubkey::default().is_default());
    assert!(addr(0).is_default());
    assert!(!addr(1).is_default());
    let mut bytes = [0u8; 32];
    bytes[17] = 1;
    assert!(!Pubkey::new_from_array(bytes).is_default());
}

#[test]
fn token_program_is_recognised_by_its_address() {
    let expected: [u8; 32] = [
        6, 221, 246, 225, 215, 101, 161, 147, 217, 203, 225, 70, 206, 235, 121, 172, 28, 180,
        133, 237, 95, 91, 55, 145, 58, 140, 245, 133, 126, 255, 0, 169,
    ];
    assert_eq!(check_token_program(&Pubkey::new_from_array(expected)), Ok(()));
    assert_eq!(
        check_token_program(&Pubkey::new_from_array(anchor_spl::token::ID.to_bytes())),
        Ok(())
    );
    assert_eq!(
        format!("{}", outside(&Pubkey::new_from_array(expected))),
        "TokenkegQfeZyiNwAJbNbGKPFXCWuBvf9Ss623VQ5DA"
    );
}

#[test]
fn other_programs_are_not_the_token_program() {
    let mut bytes = anchor_spl::token::ID.to_bytes();
    bytes[31] ^= 1;
    assert_eq!(
        check_token_program(&Pubkey::new_from_array(bytes)),
        Err(VestingError::InvalidTokenProgram)
    );
    assert_eq!(check_token_program(&addr(0)), Err(VestingError::InvalidTokenProgram));
    assert_eq!(
        check_token_program(&Pubkey::new_from_array(
            anchor_spl::associated_token::ID.to_bytes()
        )),
        Err(VestingError::InvalidTokenProgram)
    );
}

#[test]
fn program_addresses_agree_with_the_runtime() {
    let program = addr(42);
    let state = addr(43);
    let found = vault_address(&state, &program).unwrap();
    let (expected, _) = anchor_lang::prelude::Pubkey::find_program_address(
        &[b"vault", &[43u8; 32]],
        &outside(&program),
    );
    assert_eq!(found.to_bytes(), expected.to_bytes());
    assert!(found != program);
    assert!(found != state);
}

#[test]
fn program_addresses_depend_on_seeds_and_program() {
    let a = vault_address(&addr(1), &addr(9)).unwrap();
    let b = vault_address(&addr(2), &addr(9)).unwrap();
    let c = vault_address(&addr(1), &addr(8)).unwrap();
    let d = recipients_address(&addr(1), &addr(9)).unwrap();
    assert!(a != b);
    assert!(a != c);
    assert!(a != d);
    assert!(a == vault_address(&addr(1), &addr(9)).unwrap());
}

#[test]
fn program_accounts_are_derived_from_their_tags() {
    let program = addr(200);
    let state = schedule_state_address(&program).unwrap();
    let (expected_state, _) = anchor_lang::prelude::Pubkey::find_program_address(
        &[b"schedule_state"],
        &outside(&program),
    );
    assert_eq!(state.to_bytes(), expected_state.to_bytes());

    let recipients = recipients_address(&state, &program).unwrap();
    let (expected_recipients, _) = anchor_lang::prelude::Pubkey::find_program_address(
        &[b"recipients", expected_state.as_ref()],
        &outside(&program),
    );
    assert_eq!(recipients.to_bytes(), expected_recipients.to_bytes());

    let vault = vault_address(&state, &program).unwrap();
    let (expected_vault, _) = anchor_lang::prelude::Pubkey::find_program_address(
        &[b"vault", expected_state.as_ref()],
        &outside(&program),
    );
    assert_eq!(vault.to_bytes(), expected_vault.to_bytes());
    assert!(vault != recipients);
}

#[test]
fn expected_ata_is_the_associated_token_address() {
    for (w, m) in [(1u8, 2u8), (2, 1), (77, 78), (255, 0)] {
        let wallet = addr(w);
        let mint = addr(m);
        let ata: Result<Pubkey, VestingError> = expected_ata_address(&wallet, &mint);
        let expected = anchor_spl::associated_token::get_associated_token_address(
            &outside(&wallet),
            &outside(&mint),
        );
        assert_eq!(ata.unwrap().to_bytes(), expected.to_bytes());
    }
    assert!(
        expected_ata_address(&addr(1), &addr(2)).unwrap()
            != expected_ata_address(&addr(2), &addr(1)).unwrap()
    );
}

#[test]
fn expected_ata_is_derived_under_the_associated_token_program() {
    let associated: [u8; 32] = [
        140, 151, 37, 143, 78, 36, 137, 241, 187, 61, 16, 41, 20, 142, 13, 131, 11, 90, 19, 153,
        218, 255, 16, 132, 4, 142, 123, 216, 219, 233, 248, 89,
    ];
    assert_eq!(associated, anchor_spl::associated_token::ID.to_bytes());
    let token: [u8; 32] = [
        6, 221, 246, 225, 215, 101, 161, 147, 217, 203, 225, 70, 206, 235, 121, 172, 28, 180,
        133, 237, 95, 91, 55, 145, 58, 140, 245, 133, 126, 255, 0, 169,
    ];
    let (expected, _) = anchor_lang::prelude::Pubkey::find_program_address(
        &[&[5u8; 32], &token, &[6u8; 32]],
        &anchor_lang::prelude::Pubkey::new_from_array(associated),
    );
    assert_eq!(
        expected_ata_address(&addr(5), &addr(6)).unwrap().to_bytes(),
        expected.to_bytes()
    );
}

fn packed_account(mint: u8, owner: u8, amount: u64) -> Vec<u8> {
    let account = anchor_spl::token::spl_token::state::Account {
        mint: outside(&addr(mint)),
        owner: outside(&addr(owner)),
        amount,
        state: anchor_spl::token::spl_token::state::AccountState::Initialized,
        ..Default::default()
    };
    let mut data = vec![0u8; 165];
    anchor_lang::solana_program::program_pack::Pack::pack(account, &mut data).unwrap();
    data
}

fn token_program() -> Pubkey {
    Pubkey::new_from_array(anchor_spl::token::ID.to_bytes())
}

#[test]
fn unpack_reads_mint_owner_and_amount() {
    let data = packed_account(3, 4, 1_000_000_007);
    assert_eq!(
        unpack_token_account(addr(9), &token_program(), &data),
        Ok(TokenAccount { key: addr(9), mint: addr(3), owner: addr(4), amount: 1_000_000_007 })
    );
    let most = packed_account(255, 0, u64::MAX);
    assert_eq!(
        unpack_token_account(addr(1), &token_program(), &most),
        Ok(TokenAccount { key: addr(1), mint: addr(255), owner: addr(0), amount: u64::MAX })
    );
}

#[test]
fn unpack_reads_the_fields_at_their_places() {
    let mut data = vec![0u8; 165];
    data[..32].copy_from_slice(&[7u8; 32]);
    data[32..64].copy_from_slice(&[8u8; 32]);
    data[64..72].copy_from_slice(&0x0102_0304_0506_0708u64.to_le_bytes());
    data[108] = 1;
    assert_eq!(
        unpack_token_account(addr(9), &token_program(), &data),
        Ok(TokenAccount {
            key: addr(9),
            mint: addr(7),
            owner: addr(8),
            amount: 0x0102_0304_0506_0708,
        })
    );
    // A frozen account is in use too.
    data[108] = 2;
    assert!(unpack_token_account(addr(9), &token_program(), &data).is_ok());
}

#[test]
fn unpack_rejects_an_account_of_another_program() {
    let data = packed_account(3, 4, 5);
    assert_eq!(
        unpack_token_account(addr(9), &addr(77), &data),
        Err(VestingError::InvalidTokenProgram)
    );
    assert_eq!(
        unpack_token_account(addr(9), &Pubkey::default(), &vec![]),
        Err(VestingError::InvalidTokenProgram)
    );
}

#[test]
fn unpack_rejects_data_that_is_no_token_account() {
    let good = packed_account(3, 4, 5);
    let bad = Err(VestingError::InvalidTokenAccount);
    assert_eq!(unpack_token_account(addr(9), &token_program(), &vec![]), bad);
    assert_eq!(unpack_token_account(addr(9), &token_program(), &good[..164].to_vec()), bad);
    let mut longer = good.clone();
    longer.push(0);
    assert_eq!(unpack_token_account(addr(9), &token_program(), &longer), bad);
    assert_eq!(unpack_token_account(addr(9), &token_program(), &vec![0u8; 165]), bad);
    let mut unknown_state = good.clone();
    unknown_state[108] = 3;
    assert_eq!(unpack_token_account(addr(9), &token_program(), &unknown_state), bad);
    for tag in [72usize, 109, 129] {
        let mut bad_tag = good.clone();
        bad_tag[tag] = 2;
        assert_eq!(unpack_token_account(addr(9), &token_program(), &bad_tag), bad);
        let mut bad_tag = good.clone();
        bad_tag[tag + 3] = 1;
        assert_eq!(unpack_token_account(addr(9), &token_program(), &bad_tag), bad);
    }
}

fn tag_in_order(data: &[u8], at: usize) -> bool {
    (data[at] == 0 || data[at] == 1) && data[at + 1] == 0 && data[at + 2] == 0 && data[at + 3] == 0
}

fn stored_form_in_order(data: &[u8]) -> bool {
    data.len() == 165
        && tag_in_order(data, 72)
        && (data[108] == 1 || data[108] == 2)
        && tag_in_order(data, 109)
        && tag_in_order(data, 129)
}

fn check_unpack(data: &Vec<u8>) {
    let res = unpack_token_account(addr(9), &token_program(), data);
    if stored_form_in_order(data) {
        let mut amount = [0u8; 8];
        amount.copy_from_slice(&data[64..72]);
        let mut mint = [0u8; 32];
        mint.copy_from_slice(&data[..32]);
        let mut owner = [0u8; 32];
        owner.copy_from_slice(&data[32..64]);
        assert_eq!(
            res,
            Ok(TokenAccount {
                key: addr(9),
                mint: Pubkey::new_from_array(mint),
                owner: Pubkey::new_from_array(owner),
                amount: u64::from_le_bytes(amount),
            })
        );
    } else {
        assert_eq!(res, Err(VestingError::InvalidTokenAccount));
    }
}

#[test]
fn unpack_accepts_exactly_the_stored_forms_in_order() {
    let good = packed_account(3, 4, 5);
    check_unpack(&good);
    // every byte of the three option tags and of the state, at several values
    for at in [72usize, 73, 74, 75, 108, 109, 110, 111, 112, 129, 130, 131, 132] {
        for value in [0u8, 1, 2, 3, 128, 255] {
            let mut data = good.clone();
            data[at] = value;
            check_unpack(&data);
        }
    }
    // the bytes behind the tags and the delegated amount are free
    for at in [76usize, 107, 113, 120, 121, 128, 133, 164] {
        let mut data = good.clone();
        data[at] = 0xa5;
        check_unpack(&data);
        assert!(unpack_token_account(addr(9), &token_program(), &data).is_ok());
    }
    // other lengths
    for len in [0usize, 1, 72, 82, 164, 166, 330] {
        let mut data = good.clone();
        data.resize(len, 1);
        check_unpack(&data);
    }
}

#[test]
fn unpack_agrees_with_its_layout_on_scrambled_data() {
    let mut seed = 165u64;
    let mut accepted = 0;
    for _ in 0..4_000 {
        let mut data = vec![0u8; 165];
        for byte in data.iter_mut() {
            seed = seed
                .wrapping_mul(6_364_136_223_846_793_005)
                .wrapping_add(1_442_695_040_888_963_407);
            *byte = (seed >> 33) as u8;
        }
        // keep the tags and the state near their valid values, so that both
        // outcomes occur
        for at in [72usize, 109, 129] {
            data[at] %= 3;
            for rest in 1..4 {
                data[at + rest] = if data[at + rest] < 16 { 1 } else { 0 };
            }
        }
        data[108] %= 4;
        if stored_form_in_order(&data) {
            accepted += 1;
        }
        check_unpack(&data);
    }
    assert!(accepted > 100);
    assert!(accepted < 3_900);
}
