use boq_shift::account::Account;
use boq_shift::check::Check;
use boq_shift::error::BOQError;
use boq_shift::state::{BOQMintAuthority, BOQSeed};

fn account(key: [u8; 32], owner: [u8; 32], signer: bool, writable: bool) -> Account {
    Account { key, owner, is_signer: signer, is_writable: writable, data: Vec::new() }
}

#[test]
fn that_accepts_true_and_rejects_false() {
    assert_eq!(Check::that(true, "fine"), Ok(()));
    assert_eq!(Check::that(false, "broken"), Err(BOQError::AssertionFailed));
}

#[test]
fn signer_check() {
    let signed = account([1; 32], [2; 32], true, false);
    let unsigned = account([1; 32], [2; 32], false, false);
    assert_eq!(Check::signer(&signed), Ok(()));
    assert_eq!(Check::signer(&unsigned), Err(BOQError::MissingSignature));
}

#[test]
fn writable_check() {
    let writable = account([1; 32], [2; 32], false, true);
    let readonly = account([1; 32], [2; 32], false, false);
    assert_eq!(Check::writable(&writable), Ok(()));
    assert_eq!(Check::writable(&readonly), Err(BOQError::NotWritable));
}

#[test]
fn readonly_accepts_exactly_the_writable_handles() {
    let writable = account([1; 32], [2; 32], false, true);
    let readonly = account([1; 32], [2; 32], false, false);
    assert_eq!(Check::readonly(&writable), Ok(()));
    assert_eq!(Check::readonly(&readonly), Err(BOQError::NotWritable));
}

#[test]
fn signer_and_readonly_mirrors_signer_and_writable() {
    let only_signer = account([1; 32], [2; 32], true, false);
    let both = account([1; 32], [2; 32], true, true);
    assert_eq!(Check::signer_and_readonly(&only_signer), Err(BOQError::NotWritable));
    assert_eq!(Check::signer_and_readonly(&both), Ok(()));
}

#[test]
fn signer_and_writable_reports_first_failure() {
    let neither = account([1; 32], [2; 32], false, false);
    let only_signer = account([1; 32], [2; 32], true, false);
    let both = account([1; 32], [2; 32], true, true);
    assert_eq!(Check::signer_and_writable(&neither), Err(BOQError::MissingSignature));
    assert_eq!(Check::signer_and_writable(&only_signer), Err(BOQError::NotWritable));
    assert_eq!(Check::signer_and_writable(&both), Ok(()));
}

#[test]
fn owner_check() {
    let owned = account([1; 32], [2; 32], false, false);
    assert_eq!(Check::owner(&owned, &[2; 32]), Ok(()));
    assert_eq!(Check::owner(&owned, &[3; 32]), Err(BOQError::WrongOwner));
}

#[test]
fn pubkey_check() {
    assert_eq!(Check::pubkey(&[4; 32], &[4; 32]), Ok(()));
    assert_eq!(Check::pubkey(&[4; 32], &[5; 32]), Err(BOQError::AddressMismatch));
}

#[test]
fn account_check() {
    let a = account([6; 32], [2; 32], false, false);
    assert_eq!(Check::account(&a, &[6; 32]), Ok(()));
    assert_eq!(Check::account(&a, &[7; 32]), Err(BOQError::AddressMismatch));
}

#[test]
fn seed_literals_spell_their_words() {
    assert_eq!(BOQSeed::mint_authority(), b"mint_authority".to_vec());
    assert_eq!(BOQSeed::employer(), b"employer".to_vec());
    assert_eq!(BOQSeed::employee(), b"employee".to_vec());
    assert_eq!(BOQSeed::shift(), b"shift".to_vec());
}

#[test]
fn pda_check_against_real_derivation() {
    let program_id = [11u8; 32];
    let pid = solana_program::pubkey::Pubkey::new_from_array(program_id);
    let (address, bump) =
        solana_program::pubkey::Pubkey::find_program_address(&[b"mint_authority"], &pid);
    let seeds = vec![b"mint_authority".to_vec(), vec![bump]];
    let right = account(address.to_bytes(), program_id, false, false);
    let wrong = account([12u8; 32], program_id, false, false);
    assert_eq!(Check::pda(&program_id, &right, &seeds), Ok(()));
    assert_eq!(Check::pda(&program_id, &wrong, &seeds), Err(BOQError::AddressMismatch));
}

#[test]
fn ata_check_against_real_derivation() {
    let wallet = [21u8; 32];
    let mint = [22u8; 32];
    let w = spl_token::solana_program::pubkey::Pubkey::new_from_array(wallet);
    let m = spl_token::solana_program::pubkey::Pubkey::new_from_array(mint);
    let derived = spl_associated_token_account::get_associated_token_address(&w, &m).to_bytes();
    let right = account(derived, [0; 32], false, false);
    let wrong = account(wallet, [0; 32], false, false);
    assert_eq!(Check::ata(&right, &mint, &wallet), Ok(()));
    assert_eq!(Check::ata(&wrong, &mint, &wallet), Err(BOQError::AddressMismatch));
}

#[test]
fn initialized_and_uninitialized_checks() {
    let handle = account([1; 32], [2; 32], false, false);
    let typed = BOQMintAuthority::new(1);
    let untyped = BOQMintAuthority::from_bytes(&[0u8, 0u8]).unwrap();
    assert_eq!(Check::initialized(&typed, &handle), Ok(()));
    assert_eq!(Check::initialized(&untyped, &handle), Err(BOQError::NotInitialized));
    assert_eq!(Check::uninitialized(&untyped, &handle), Ok(()));
    assert_eq!(Check::uninitialized(&typed, &handle), Err(BOQError::AlreadyInitialized));
}
