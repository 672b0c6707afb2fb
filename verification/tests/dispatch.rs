use boq_shift::account::Account;
use boq_shift::error::BOQError;
use boq_shift::instruction::BOQInstruction;
use boq_shift::processor::{HostAction, Processor};
use boq_shift::state::{
    BOQAccountType, BOQEmployee, BOQEmployer, BOQMintAuthority, BOQShift, MINT_AUTHORITY_SIZE,
};
use spl_token::solana_program::program_option::COption;
use spl_token::solana_program::program_pack::Pack;
use spl_token::solana_program::pubkey::Pubkey;
use spl_token::state::AccountState;

const PROGRAM_ID: [u8; 32] = [61u8; 32];
const TOKEN_MINT: [u8; 32] = [62u8; 32];
const NFT_MINT: [u8; 32] = [63u8; 32];
const SHIFT_OWNER: [u8; 32] = [64u8; 32];

fn untyped(size: usize) -> Account {
    Account {
        key: [1; 32],
        owner: [2; 32],
        is_signer: false,
        is_writable: true,
        data: vec![0u8; size],
    }
}

#[test]
fn test_command_is_a_noop() {
    let mut accounts: Vec<Account> = Vec::new();
    let actions = Processor::process(
        &PROGRAM_ID,
        &[0; 32],
        BOQInstruction::Test,
        &mut accounts,
        0,
    )
    .unwrap();
    assert!(actions.is_empty());
}

#[test]
fn dispatcher_initializes_a_mint_authority() {
    let mut accounts = vec![untyped(MINT_AUTHORITY_SIZE)];
    let actions = Processor::process(
        &PROGRAM_ID,
        &[0; 32],
        BOQInstruction::InitializeMintAuthority { bump: 5 },
        &mut accounts,
        0,
    )
    .unwrap();
    assert!(actions.is_empty());
    let record = BOQMintAuthority::from_bytes(&accounts[0].data).unwrap();
    assert_eq!(record.account_type, BOQAccountType::MintAuthority);
    assert_eq!(record.bump, 5);
}

#[test]
fn dispatcher_rejects_short_account_lists() {
    let mut accounts: Vec<Account> = Vec::new();
    let r = Processor::process(
        &PROGRAM_ID,
        &[0; 32],
        BOQInstruction::InitializeMintAuthority { bump: 5 },
        &mut accounts,
        0,
    );
    assert_eq!(r, Err(BOQError::MalformedInput));
}

#[test]
fn dispatcher_describes_a_creation() {
    let payer = untyped(0);
    let pda = untyped(0);
    let mut program_account = untyped(0);
    program_account.is_signer = true;
    let system = untyped(0);
    let mut accounts = vec![payer, pda, program_account, system];
    let actions = Processor::process(
        &PROGRAM_ID,
        &[0; 32],
        BOQInstruction::CreateMintAuthority { bump: 5 },
        &mut accounts,
        0,
    )
    .unwrap();
    assert_eq!(actions.len(), 1);
    assert_eq!(accounts.len(), 4);
}

fn plain(key: [u8; 32], owner: [u8; 32], data: Vec<u8>) -> Account {
    Account { key, owner, is_signer: false, is_writable: true, data }
}

fn token_account_bytes(mint: [u8; 32], owner: [u8; 32], amount: u64) -> Vec<u8> {
    let record = spl_token::state::Account {
        mint: Pubkey::new_from_array(mint),
        owner: Pubkey::new_from_array(owner),
        amount,
        delegate: COption::None,
        state: AccountState::Initialized,
        is_native: COption::None,
        delegated_amount: 0,
        close_authority: COption::None,
    };
    let mut buf = vec![0u8; spl_token::state::Account::LEN];
    spl_token::state::Account::pack(record, &mut buf).unwrap();
    buf
}

#[test]
fn dispatcher_runs_a_batched_accrual() {
    let employer_record = BOQEmployer::new(
        0,
        true,
        10_000,
        10_000,
        1000,
        250_000,
        100_000,
        TOKEN_MINT,
        [2; 32],
    );
    let mut employee_record = BOQEmployee::new(0, NFT_MINT);
    employee_record.last_slot = 1000;
    let w = Pubkey::new_from_array(SHIFT_OWNER);
    let m = Pubkey::new_from_array(TOKEN_MINT);
    let ata_key = spl_associated_token_account::get_associated_token_address(&w, &m).to_bytes();
    let mut accounts = vec![
        plain([71; 32], PROGRAM_ID, BOQMintAuthority::new(9).to_bytes()),
        plain([72; 32], PROGRAM_ID, employer_record.to_bytes()),
        plain([73; 32], PROGRAM_ID, BOQShift::new(0, 0, SHIFT_OWNER).to_bytes()),
        plain(TOKEN_MINT, [0; 32], Vec::new()),
        plain(ata_key, [0; 32], Vec::new()),
        plain(spl_token::ID.to_bytes(), [0; 32], Vec::new()),
        plain([74; 32], [0; 32], token_account_bytes(NFT_MINT, SHIFT_OWNER, 1)),
        plain([75; 32], PROGRAM_ID, employee_record.to_bytes()),
    ];
    let actions = Processor::process(
        &PROGRAM_ID,
        &[0; 32],
        BOQInstruction::Shift { number_of_employees: 1 },
        &mut accounts,
        1100,
    )
    .unwrap();
    assert_eq!(actions.len(), 1);
    match &actions[0] {
        HostAction::MintTo { amount, destination, .. } => {
            assert_eq!(*amount, 10_000_000);
            assert_eq!(*destination, ata_key);
        },
        _ => panic!("expected a mint"),
    }
    assert_eq!(accounts.len(), 8);
    let shift_record = BOQShift::from_bytes(&accounts[2].data).unwrap();
    assert_eq!(shift_record.total_rewards, 10_000_000);
    let employee = BOQEmployee::from_bytes(&accounts[7].data).unwrap();
    assert_eq!(employee.last_slot, 1100);
    assert_eq!(employee.total_slots, 100);
}

#[test]
fn dispatcher_rejects_an_overflowing_accrual_window() {
    let mut accounts = vec![untyped(111)];
    let r = Processor::process(
        &PROGRAM_ID,
        &[0; 32],
        BOQInstruction::InitializeEmployer {
            bump: 0,
            token_mint: [1; 32],
            collection_mint: [2; 32],
            max_shifts: Some(u16::MAX),
            max_employees: None,
            start_slot: Some(u64::MAX),
            slots_per_shift: Some(u64::MAX),
            base_rate_per_slot: None,
        },
        &mut accounts,
        0,
    );
    assert_eq!(r, Err(BOQError::AssertionFailed));
}
