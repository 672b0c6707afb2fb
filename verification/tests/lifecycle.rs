use boq_shift::account::Account;
use boq_shift::error::BOQError;
use boq_shift::processor::Processor;
use boq_shift::state::{
    BOQAccountType, BOQEmployee, BOQEmployer, BOQMintAuthority, BOQShift, EMPLOYEE_SIZE,
    EMPLOYER_SIZE, MINT_AUTHORITY_SIZE, SHIFT_SIZE,
};

fn untyped(size: usize) -> Account {
    Account {
        key: [1; 32],
        owner: [2; 32],
        is_signer: false,
        is_writable: true,
        data: vec![0u8; size],
    }
}

#[test]
fn initialize_mint_authority_types_untyped_storage() {
    let mut account = untyped(MINT_AUTHORITY_SIZE);
    assert_eq!(Processor::process_initialize_mint_authority(&mut account, 9), Ok(()));
    let record = BOQMintAuthority::from_bytes(&account.data).unwrap();
    assert_eq!(record.account_type, BOQAccountType::MintAuthority);
    assert_eq!(record.bump, 9);
}

#[test]
fn initialize_mint_authority_twice_fails() {
    let mut account = untyped(MINT_AUTHORITY_SIZE);
    assert_eq!(Processor::process_initialize_mint_authority(&mut account, 9), Ok(()));
    let before = account.data.clone();
    assert_eq!(
        Processor::process_initialize_mint_authority(&mut account, 9),
        Err(BOQError::AlreadyInitialized)
    );
    assert_eq!(account.data, before);
}

#[test]
fn initialize_employer_applies_defaults() {
    let mut account = untyped(EMPLOYER_SIZE);
    let token_mint = [5u8; 32];
    let collection_mint = [6u8; 32];
    assert_eq!(
        Processor::process_initialize_employer(
            &mut account,
            4,
            &token_mint,
            &collection_mint,
            None,
            None,
            None,
            None,
            None,
            1000,
        ),
        Ok(())
    );
    let record = BOQEmployer::from_bytes(&account.data).unwrap();
    assert_eq!(record.account_type, BOQAccountType::Employer);
    assert!(record.is_active);
    assert_eq!(record.employees, 0);
    assert_eq!(record.max_employees, 10_000);
    assert_eq!(record.start_slot, 1000);
    assert_eq!(record.slots_per_shift, 250_000);
    assert_eq!(record.base_rate_per_slot, 100_000);
    assert_eq!(record.inflation_rate_per_slot, 100);
    assert_eq!(record.end_slot, 2_500_001_000);
    assert_eq!(record.token_mint, token_mint);
    assert_eq!(record.collection_mint, collection_mint);
}

#[test]
fn initialize_employer_on_typed_record_fails() {
    let mut account = untyped(EMPLOYER_SIZE);
    let mint = [5u8; 32];
    Processor::process_initialize_employer(
        &mut account,
        4,
        &mint,
        &mint,
        None,
        None,
        None,
        None,
        None,
        1000,
    )
    .unwrap();
    let before = account.data.clone();
    assert_eq!(
        Processor::process_initialize_employer(
            &mut account,
            4,
            &mint,
            &mint,
            None,
            None,
            None,
            None,
            None,
            2000,
        ),
        Err(BOQError::AlreadyInitialized)
    );
    assert_eq!(account.data, before);
}

#[test]
fn initialize_employer_honours_explicit_options() {
    let mut account = untyped(EMPLOYER_SIZE);
    let mint = [5u8; 32];
    Processor::process_initialize_employer(
        &mut account,
        4,
        &mint,
        &mint,
        Some(10),
        Some(20),
        Some(3000),
        Some(100),
        Some(5000),
        1000,
    )
    .unwrap();
    let record = BOQEmployer::from_bytes(&account.data).unwrap();
    assert_eq!(record.max_employees, 20);
    assert_eq!(record.start_slot, 3000);
    assert_eq!(record.end_slot, 3000 + 10 * 100);
    assert_eq!(record.slots_per_shift, 100);
    assert_eq!(record.base_rate_per_slot, 5000);
    assert_eq!(record.inflation_rate_per_slot, 5);
}

#[test]
fn initialize_employee_checks_the_derived_address() {
    let program_id = [7u8; 32];
    let nft_mint = [8u8; 32];
    let pid = solana_program::pubkey::Pubkey::new_from_array(program_id);
    let (address, bump) = solana_program::pubkey::Pubkey::find_program_address(
        &[b"employee", &nft_mint],
        &pid,
    );
    let mut account = untyped(EMPLOYEE_SIZE);
    account.key = address.to_bytes();
    assert_eq!(
        Processor::process_initialize_employee(&program_id, &mut account, bump, &nft_mint),
        Ok(())
    );
    let record = BOQEmployee::from_bytes(&account.data).unwrap();
    assert_eq!(record.account_type, BOQAccountType::Employee);
    assert_eq!(record.bump, bump);
    assert_eq!(record.last_slot, 0);
    assert_eq!(record.total_slots, 0);
    assert_eq!(record.nft_mint, nft_mint);
}

#[test]
fn initialize_employee_at_wrong_address_fails() {
    let program_id = [7u8; 32];
    let nft_mint = [8u8; 32];
    let mut account = untyped(EMPLOYEE_SIZE);
    assert_eq!(
        Processor::process_initialize_employee(&program_id, &mut account, 0, &nft_mint),
        Err(BOQError::AddressMismatch)
    );
    assert_eq!(account.data, vec![0u8; EMPLOYEE_SIZE]);
}

#[test]
fn initialize_shift_types_untyped_storage() {
    let owner = [9u8; 32];
    let mut account = untyped(SHIFT_SIZE);
    assert_eq!(Processor::process_initialize_shift(&mut account, 3, 555, &owner), Ok(()));
    let record = BOQShift::from_bytes(&account.data).unwrap();
    assert_eq!(record.account_type, BOQAccountType::Shift);
    assert_eq!(record.slot, 555);
    assert_eq!(record.total_slots, 0);
    assert_eq!(record.total_rewards, 0);
    assert_eq!(record.owner, owner);
    assert_eq!(
        Processor::process_initialize_shift(&mut account, 3, 555, &owner),
        Err(BOQError::AlreadyInitialized)
    );
}

#[test]
fn initialize_on_undecodable_storage_fails() {
    let mut account = untyped(MINT_AUTHORITY_SIZE);
    account.data = vec![9u8, 0u8];
    assert_eq!(
        Processor::process_initialize_mint_authority(&mut account, 1),
        Err(BOQError::MalformedInput)
    );
}

#[test]
fn create_pda_requires_the_program_signature() {
    let payer = untyped(0);
    let pda = untyped(0);
    let mut program_account = untyped(0);
    program_account.is_signer = false;
    assert_eq!(
        Processor::process_create_mint_authority(&payer, &pda, &program_account, 1),
        Err(BOQError::MissingSignature)
    );
    program_account.is_signer = true;
    assert!(Processor::process_create_mint_authority(&payer, &pda, &program_account, 1).is_ok());
}

#[test]
fn create_shift_needs_no_signature() {
    let owner = untyped(0);
    let pda = untyped(0);
    let program_account = untyped(0);
    assert!(Processor::process_create_shift(&owner, &pda, &program_account, 1).is_ok());
}
