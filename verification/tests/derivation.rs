use anchor_lang::prelude::Pubkey;
use conditional_escrow::address::Address;
use conditional_escrow::contexts::{
    accept_derived, accept_found, check_stored_seeds, InitializeEscrow, InitializeEscrowBumps,
    Signer,
};
use conditional_escrow::errors::AccountError;
use conditional_escrow::pda::{
    derive_with_bump, escrow_seeds, find_program_address, vault_authority_seeds, with_bump,
};
use conditional_escrow::state::Escrow;

fn address(tag: u8) -> Address {
    let mut bytes = [0u8; 32];
    for (i, b) in bytes.iter_mut().enumerate() {
        *b = tag.wrapping_mul(31).wrapping_add(i as u8);
    }
    Address::new(bytes)
}

fn key(a: &Address) -> Pubkey {
    Pubkey::new_from_array(a.to_bytes())
}

fn record(program: &Address, initializer: Address, mint: Address) -> (Address, Address, Escrow) {
    let (authority, vault_bump) =
        find_program_address(&vault_authority_seeds(&initializer, &mint), program).unwrap();
    let (escrow_key, escrow_bump) =
        find_program_address(&escrow_seeds(&initializer, &mint), program).unwrap();
    let escrow = Escrow {
        initializer,
        beneficiary: address(2),
        mint,
        vault: address(9),
        amount: 5,
        release_time: 0,
        vault_bump,
        escrow_bump,
    };
    (escrow_key, authority, escrow)
}

#[test]
fn address_keeps_its_bytes() {
    let mut bytes = [0u8; 32];
    bytes[0] = 7;
    bytes[31] = 200;
    let a = Address::new(bytes);
    assert_eq!(a.to_bytes(), bytes);
    assert_eq!(a.bytes, bytes);
}

#[test]
fn same_compares_every_byte() {
    let a = address(1);
    let mut other = a.to_bytes();
    assert!(a.same(&Address::new(other)));
    other[31] ^= 1;
    assert!(!a.same(&Address::new(other)));
    let mut first = a.to_bytes();
    first[0] ^= 1;
    assert!(!a.same(&Address::new(first)));
}

#[test]
fn escrow_seeds_are_label_initializer_mint() {
    let initializer = address(1);
    let mint = address(3);
    let seeds = escrow_seeds(&initializer, &mint);
    assert_eq!(seeds.len(), 3);
    assert_eq!(seeds[0], b"escrow".to_vec());
    assert_eq!(seeds[1], initializer.to_bytes().to_vec());
    assert_eq!(seeds[2], mint.to_bytes().to_vec());
}

#[test]
fn vault_authority_seeds_are_label_initializer_mint() {
    let initializer = address(1);
    let mint = address(3);
    let seeds = vault_authority_seeds(&initializer, &mint);
    assert_eq!(seeds.len(), 3);
    assert_eq!(seeds[0], b"vault_authority".to_vec());
    assert_eq!(seeds[1], initializer.to_bytes().to_vec());
    assert_eq!(seeds[2], mint.to_bytes().to_vec());
}

#[test]
fn with_bump_appends_one_byte_seed() {
    let seeds = with_bump(escrow_seeds(&address(1), &address(3)), 254);
    assert_eq!(seeds.len(), 4);
    assert_eq!(seeds[3], vec![254u8]);
    assert_eq!(seeds[0], b"escrow".to_vec());
}

#[test]
fn find_agrees_with_the_ledger_runtime() {
    let program = address(40);
    let initializer = address(1);
    let mint = address(3);
    let (found, bump) = find_program_address(&escrow_seeds(&initializer, &mint), &program).unwrap();
    let (expected, expected_bump) = Pubkey::find_program_address(
        &[b"escrow", key(&initializer).as_ref(), key(&mint).as_ref()],
        &key(&program),
    );
    assert_eq!(found.to_bytes(), expected.to_bytes());
    assert_eq!(bump, expected_bump);

    let (found, bump) =
        find_program_address(&vault_authority_seeds(&initializer, &mint), &program).unwrap();
    let (expected, expected_bump) = Pubkey::find_program_address(
        &[b"vault_authority", key(&initializer).as_ref(), key(&mint).as_ref()],
        &key(&program),
    );
    assert_eq!(found.to_bytes(), expected.to_bytes());
    assert_eq!(bump, expected_bump);
}

#[test]
fn found_address_is_none_of_its_inputs() {
    let program = address(40);
    let initializer = address(1);
    let mint = address(3);
    let (found, _) = find_program_address(&escrow_seeds(&initializer, &mint), &program).unwrap();
    assert_ne!(found, program);
    assert_ne!(found, initializer);
    assert_ne!(found, mint);
}

#[test]
fn record_address_and_vault_authority_differ() {
    let program = address(40);
    let initializer = address(1);
    let mint = address(3);
    let (record, _) = find_program_address(&escrow_seeds(&initializer, &mint), &program).unwrap();
    let (authority, _) =
        find_program_address(&vault_authority_seeds(&initializer, &mint), &program).unwrap();
    assert_ne!(record, authority);
}

#[test]
fn derivation_is_deterministic_and_depends_on_each_input() {
    let program = address(40);
    let a = find_program_address(&escrow_seeds(&address(1), &address(3)), &program).unwrap();
    let again = find_program_address(&escrow_seeds(&address(1), &address(3)), &program).unwrap();
    assert_eq!(a, again);
    let other_initializer =
        find_program_address(&escrow_seeds(&address(2), &address(3)), &program).unwrap();
    let other_mint = find_program_address(&escrow_seeds(&address(1), &address(4)), &program).unwrap();
    let other_program =
        find_program_address(&escrow_seeds(&address(1), &address(3)), &address(41)).unwrap();
    assert_ne!(a.0, other_initializer.0);
    assert_ne!(a.0, other_mint.0);
    assert_ne!(a.0, other_program.0);
}

#[test]
fn stored_bump_derives_the_found_address_again() {
    let program = address(40);
    let initializer = address(5);
    let mint = address(6);
    let (found, bump) =
        find_program_address(&vault_authority_seeds(&initializer, &mint), &program).unwrap();
    let again = derive_with_bump(vault_authority_seeds(&initializer, &mint), bump, &program);
    assert_eq!(again, Some(found));
    let expected = Pubkey::create_program_address(
        &[b"vault_authority", key(&initializer).as_ref(), key(&mint).as_ref(), &[bump]],
        &key(&program),
    )
    .unwrap();
    assert_eq!(found.to_bytes(), expected.to_bytes());
}

#[test]
fn derive_with_bump_agrees_for_every_bump() {
    let program = address(40);
    let initializer = address(5);
    let mint = address(6);
    let mut failures = 0;
    let mut bump = 255u8;
    loop {
        let ours = derive_with_bump(escrow_seeds(&initializer, &mint), bump, &program);
        let theirs = Pubkey::create_program_address(
            &[b"escrow", key(&initializer).as_ref(), key(&mint).as_ref(), &[bump]],
            &key(&program),
        );
        match theirs {
            Ok(k) => assert_eq!(ours.map(|a| a.to_bytes()), Some(k.to_bytes())),
            Err(_) => {
                failures += 1;
                assert_eq!(ours, None);
            }
        }
        if bump == 0 {
            break;
        }
        bump -= 1;
    }
    assert!(failures > 0);
}

#[test]
fn canonical_bump_is_the_largest_that_derives() {
    let program = address(40);
    for tag in 0..20u8 {
        let initializer = address(tag);
        let mint = address(tag.wrapping_add(100));
        let (_, bump) = find_program_address(&escrow_seeds(&initializer, &mint), &program).unwrap();
        assert!(bump >= 1);
        let mut c = 255u8;
        while c > bump {
            assert_eq!(derive_with_bump(escrow_seeds(&initializer, &mint), c, &program), None);
            c -= 1;
        }
        assert!(derive_with_bump(escrow_seeds(&initializer, &mint), bump, &program).is_some());
    }
}

#[test]
fn too_many_seeds_derive_nothing() {
    let program = address(40);
    let seeds: Vec<Vec<u8>> = (0..16u8).map(|i| vec![i]).collect();
    assert_eq!(find_program_address(&seeds, &program), None);
    assert_eq!(derive_with_bump(seeds, 255, &program), None);
    let fifteen: Vec<Vec<u8>> = (0..15u8).map(|i| vec![i]).collect();
    assert!(find_program_address(&fifteen, &program).is_some());
}

#[test]
fn overlong_seed_derives_nothing() {
    let program = address(40);
    let seeds: Vec<Vec<u8>> = vec![vec![1u8; 33]];
    assert_eq!(find_program_address(&seeds, &program), None);
    assert_eq!(derive_with_bump(seeds, 255, &program), None);
    let seeds: Vec<Vec<u8>> = vec![vec![1u8; 32]];
    assert!(find_program_address(&seeds, &program).is_some());
}

#[test]
fn find_bumps_accepts_the_derived_addresses() {
    let program = address(40);
    let initializer = address(1);
    let mint = address(3);
    let (escrow_key, authority, escrow) = record(&program, initializer, mint);
    let ctx = InitializeEscrow {
        initializer: Signer { key: initializer, is_signer: true },
        beneficiary: address(2),
        initializer_deposit_token_account: address(7),
        vault_account: address(9),
        vault_authority: authority,
        escrow: escrow_key,
        mint,
    };
    assert_eq!(
        ctx.find_bumps(&program),
        Ok(InitializeEscrowBumps { vault_authority: escrow.vault_bump, escrow: escrow.escrow_bump })
    );
}

#[test]
fn find_bumps_refuses_other_addresses() {
    let program = address(40);
    let initializer = address(1);
    let mint = address(3);
    let (escrow_key, authority, _) = record(&program, initializer, mint);
    let good = InitializeEscrow {
        initializer: Signer { key: initializer, is_signer: true },
        beneficiary: address(2),
        initializer_deposit_token_account: address(7),
        vault_account: address(9),
        vault_authority: authority,
        escrow: escrow_key,
        mint,
    };
    let wrong_authority = InitializeEscrow { vault_authority: escrow_key, ..good };
    assert_eq!(wrong_authority.find_bumps(&program), Err(AccountError::SeedsMismatch));
    let wrong_record = InitializeEscrow { escrow: authority, ..good };
    assert_eq!(wrong_record.find_bumps(&program), Err(AccountError::SeedsMismatch));
    let other_mint = InitializeEscrow { mint: address(4), ..good };
    assert_eq!(other_mint.find_bumps(&program), Err(AccountError::SeedsMismatch));
    assert_eq!(good.find_bumps(&address(41)), Err(AccountError::SeedsMismatch));
}

#[test]
fn stored_seeds_are_checked_against_the_record() {
    let program = address(40);
    let (escrow_key, authority, escrow) = record(&program, address(1), address(3));
    assert_eq!(check_stored_seeds(&escrow, &escrow_key, &authority, &program), Ok(()));
    assert_eq!(
        check_stored_seeds(&escrow, &authority, &authority, &program),
        Err(AccountError::SeedsMismatch)
    );
    assert_eq!(
        check_stored_seeds(&escrow, &escrow_key, &escrow_key, &program),
        Err(AccountError::SeedsMismatch)
    );
    let other_bump = Escrow { vault_bump: escrow.vault_bump.wrapping_sub(1), ..escrow };
    assert_eq!(
        check_stored_seeds(&other_bump, &escrow_key, &authority, &program),
        Err(AccountError::SeedsMismatch)
    );
    let other_party = Escrow { initializer: address(8), ..escrow };
    assert_eq!(
        check_stored_seeds(&other_party, &escrow_key, &authority, &program),
        Err(AccountError::SeedsMismatch)
    );
}

#[test]
fn vault_signer_seeds_end_with_the_stored_bump() {
    let program = address(40);
    let (_, authority, escrow) = record(&program, address(1), address(3));
    let seeds = escrow.vault_signer_seeds();
    assert_eq!(seeds.len(), 4);
    assert_eq!(seeds[0], b"vault_authority".to_vec());
    assert_eq!(seeds[1], escrow.initializer.to_bytes().to_vec());
    assert_eq!(seeds[2], escrow.mint.to_bytes().to_vec());
    assert_eq!(seeds[3], vec![escrow.vault_bump]);
    let parts: Vec<&[u8]> = seeds.iter().map(|s| s.as_slice()).collect();
    let signed_for = Pubkey::create_program_address(&parts, &key(&program)).unwrap();
    assert_eq!(signed_for.to_bytes(), authority.to_bytes());
}

#[test]
fn found_address_is_accepted_only_where_named() {
    assert_eq!(accept_found(None, &address(1)), Err(AccountError::AddressNotDerivable));
    assert_eq!(accept_found(Some((address(1), 255)), &address(1)), Ok(255));
    assert_eq!(accept_found(Some((address(1), 1)), &address(1)), Ok(1));
    assert_eq!(accept_found(Some((address(2), 255)), &address(1)), Err(AccountError::SeedsMismatch));
}

#[test]
fn derived_address_is_accepted_only_where_named() {
    assert_eq!(accept_derived(None, &address(1)), Err(AccountError::SeedsMismatch));
    assert_eq!(accept_derived(Some(address(1)), &address(1)), Ok(()));
    assert_eq!(accept_derived(Some(address(2)), &address(1)), Err(AccountError::SeedsMismatch));
}
