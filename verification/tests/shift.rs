use boq_shift::account::Account;
use boq_shift::engine::EmployeePair;
use boq_shift::error::BOQError;
use boq_shift::processor::{HostAction, Processor};
use boq_shift::state::{BOQEmployee, BOQEmployer, BOQMintAuthority, BOQShift};
use spl_token::solana_program::program_option::COption;
use spl_token::solana_program::program_pack::Pack;
use spl_token::solana_program::pubkey::Pubkey;
use spl_token::state::AccountState;

const PROGRAM_ID: [u8; 32] = [11u8; 32];
const TOKEN_MINT: [u8; 32] = [12u8; 32];
const COLLECTION_MINT: [u8; 32] = [13u8; 32];
const NFT_MINT: [u8; 32] = [14u8; 32];
const SHIFT_OWNER: [u8; 32] = [15u8; 32];

fn plain(key: [u8; 32], owner: [u8; 32], data: Vec<u8>) -> Account {
    Account { key, owner, is_signer: false, is_writable: true, data }
}

fn token_account_bytes(mint: [u8; 32], owner: [u8; 32], amount: u64) -> Vec<u8> {
    let record = spl_token::state::Account {
        mint: Pubkey::new_from_array(mint),
        owner: Pubkey::new_from_array(owner),
        amount,
        delegate: COption::None,
        state: AccountState::Initialized,
        is_native: COption::None,
        delegated_amount: 0,
        close_authority: COption::None,
    };
    let mut buf = vec![0u8; spl_token::state::Account::LEN];
    spl_token::state::Account::pack(record, &mut buf).unwrap();
    buf
}

fn ata_key() -> [u8; 32] {
    let w = Pubkey::new_from_array(SHIFT_OWNER);
    let m = Pubkey::new_from_array(TOKEN_MINT);
    spl_associated_token_account::get_associated_token_address(&w, &m).to_bytes()
}

fn fixed_accounts() -> (Account, Account, Account, Account, Account, Account) {
    let mint_authority = plain([21; 32], PROGRAM_ID, BOQMintAuthority::new(200).to_bytes());
    let employer_record = BOQEmployer::new(
        0,
        true,
        10_000,
        10_000,
        1000,
        250_000,
        100_000,
        TOKEN_MINT,
        COLLECTION_MINT,
    );
    let employer = plain([22; 32], PROGRAM_ID, employer_record.to_bytes());
    let shift = plain([23; 32], PROGRAM_ID, BOQShift::new(0, 0, SHIFT_OWNER).to_bytes());
    let token_mint = plain(TOKEN_MINT, [0; 32], Vec::new());
    let ata = plain(ata_key(), [0; 32], Vec::new());
    let token_program = plain(spl_token::ID.to_bytes(), [0; 32], Vec::new());
    (mint_authority, employer, shift, token_mint, ata, token_program)
}

fn employee_pair(last_slot: u64, total_slots: u64, amount: u64, holder: [u8; 32]) -> EmployeePair {
    let mut record = BOQEmployee::new(0, NFT_MINT);
    record.last_slot = last_slot;
    record.total_slots = total_slots;
    EmployeePair {
        token: plain([31; 32], [0; 32], token_account_bytes(NFT_MINT, holder, amount)),
        employee: plain([32; 32], PROGRAM_ID, record.to_bytes()),
    }
}

#[test]
fn one_employee_accrues_and_mints() {
    let (ma, er, mut sh, tm, ata, tp) = fixed_accounts();
    let mut pairs = vec![employee_pair(1000, 0, 1, SHIFT_OWNER)];
    let r = Processor::process_shift(&PROGRAM_ID, &ma, &er, &mut sh, &tm, &ata, &tp, &mut pairs, 1, 1100)
        .unwrap();
    match r {
        Some(HostAction::MintTo { token_mint, destination, authority, amount, seeds, .. }) => {
            assert_eq!(amount, 10_000_000);
            assert_eq!(token_mint, TOKEN_MINT);
            assert_eq!(destination, ata_key());
            assert_eq!(authority, [21; 32]);
            assert_eq!(seeds, vec![b"mint_authority".to_vec(), vec![200]]);
        },
        other => panic!("unexpected outcome: {:?}", other.is_some()),
    }
    let shift_record = BOQShift::from_bytes(&sh.data).unwrap();
    assert_eq!(shift_record.total_slots, 100);
    assert_eq!(shift_record.total_rewards, 10_000_000);
    let employee = BOQEmployee::from_bytes(&pairs[0].employee.data).unwrap();
    assert_eq!(employee.last_slot, 1100);
    assert_eq!(employee.total_slots, 100);
}

#[test]
fn batch_total_is_the_sum_of_rewards() {
    let (ma, er, mut sh, tm, ata, tp) = fixed_accounts();
    let mut pairs = vec![
        employee_pair(1000, 0, 1, SHIFT_OWNER),
        employee_pair(1050, 0, 1, SHIFT_OWNER),
    ];
    let r = Processor::process_shift(&PROGRAM_ID, &ma, &er, &mut sh, &tm, &ata, &tp, &mut pairs, 2, 1100)
        .unwrap();
    match r {
        Some(HostAction::MintTo { amount, .. }) => {
            assert_eq!(amount, 10_000_000 + 5_000_000);
        },
        _ => panic!("expected a mint"),
    }
    let shift_record = BOQShift::from_bytes(&sh.data).unwrap();
    assert_eq!(shift_record.total_slots, 150);
    assert_eq!(shift_record.total_rewards, 15_000_000);
}

#[test]
fn pair_with_wrong_balance_is_skipped() {
    let (ma, er, mut sh, tm, ata, tp) = fixed_accounts();
    let mut pairs = vec![employee_pair(1000, 0, 2, SHIFT_OWNER)];
    let before = pairs[0].employee.data.clone();
    let shift_before = sh.data.clone();
    let r = Processor::process_shift(&PROGRAM_ID, &ma, &er, &mut sh, &tm, &ata, &tp, &mut pairs, 1, 1100)
        .unwrap();
    assert!(r.is_none());
    assert_eq!(pairs[0].employee.data, before);
    assert_eq!(sh.data, shift_before);
}

#[test]
fn pair_held_by_someone_else_is_skipped() {
    let (ma, er, mut sh, tm, ata, tp) = fixed_accounts();
    let mut pairs = vec![employee_pair(1000, 0, 1, [99; 32])];
    let before = pairs[0].employee.data.clone();
    let r = Processor::process_shift(&PROGRAM_ID, &ma, &er, &mut sh, &tm, &ata, &tp, &mut pairs, 1, 1100)
        .unwrap();
    assert!(r.is_none());
    assert_eq!(pairs[0].employee.data, before);
}

#[test]
fn mismatched_mint_aborts_the_whole_call() {
    let (ma, er, mut sh, tm, ata, tp) = fixed_accounts();
    let mut record = BOQEmployee::new(0, [77; 32]);
    record.last_slot = 1000;
    let pair = EmployeePair {
        token: plain([31; 32], [0; 32], token_account_bytes(NFT_MINT, SHIFT_OWNER, 1)),
        employee: plain([32; 32], PROGRAM_ID, record.to_bytes()),
    };
    let mut pairs = vec![pair];
    let before = pairs[0].employee.data.clone();
    let shift_before = sh.data.clone();
    let r = Processor::process_shift(&PROGRAM_ID, &ma, &er, &mut sh, &tm, &ata, &tp, &mut pairs, 1, 1100);
    assert_eq!(r, Err(BOQError::AddressMismatch));
    assert_eq!(pairs[0].employee.data, before);
    assert_eq!(sh.data, shift_before);
}

#[test]
fn repeated_call_at_same_slot_is_a_valid_noop() {
    let (ma, er, mut sh, tm, ata, tp) = fixed_accounts();
    let mut pairs = vec![employee_pair(1100, 100, 1, SHIFT_OWNER)];
    let before = pairs[0].employee.data.clone();
    let r = Processor::process_shift(&PROGRAM_ID, &ma, &er, &mut sh, &tm, &ata, &tp, &mut pairs, 1, 1100)
        .unwrap();
    assert!(r.is_none());
    assert_eq!(pairs[0].employee.data, before);
}

#[test]
fn inactive_window_aborts() {
    let (ma, er, mut sh, tm, ata, tp) = fixed_accounts();
    let mut pairs = vec![employee_pair(1000, 0, 1, SHIFT_OWNER)];
    let r = Processor::process_shift(&PROGRAM_ID, &ma, &er, &mut sh, &tm, &ata, &tp, &mut pairs, 1, 500);
    assert_eq!(r, Err(BOQError::AssertionFailed));
}

#[test]
fn foreign_employer_record_aborts() {
    let (ma, mut er, mut sh, tm, ata, tp) = fixed_accounts();
    er.owner = [99; 32];
    let mut pairs = vec![employee_pair(1000, 0, 1, SHIFT_OWNER)];
    let r = Processor::process_shift(&PROGRAM_ID, &ma, &er, &mut sh, &tm, &ata, &tp, &mut pairs, 1, 1100);
    assert_eq!(r, Err(BOQError::WrongOwner));
}

#[test]
fn untyped_shift_record_aborts() {
    let (ma, er, _, tm, ata, tp) = fixed_accounts();
    let mut sh = plain([23; 32], PROGRAM_ID, vec![0u8; 58]);
    let mut pairs = vec![employee_pair(1000, 0, 1, SHIFT_OWNER)];
    let r = Processor::process_shift(&PROGRAM_ID, &ma, &er, &mut sh, &tm, &ata, &tp, &mut pairs, 1, 1100);
    assert_eq!(r, Err(BOQError::NotInitialized));
}

#[test]
fn wrong_receiving_account_aborts() {
    let (ma, er, mut sh, tm, _, tp) = fixed_accounts();
    let ata = plain([66; 32], [0; 32], Vec::new());
    let mut pairs = vec![employee_pair(1000, 0, 1, SHIFT_OWNER)];
    let r = Processor::process_shift(&PROGRAM_ID, &ma, &er, &mut sh, &tm, &ata, &tp, &mut pairs, 1, 1100);
    assert_eq!(r, Err(BOQError::AddressMismatch));
}

#[test]
fn undecodable_token_account_aborts() {
    let (ma, er, mut sh, tm, ata, tp) = fixed_accounts();
    let mut pair = employee_pair(1000, 0, 1, SHIFT_OWNER);
    pair.token.data = vec![0u8; 10];
    let mut pairs = vec![pair];
    let r = Processor::process_shift(&PROGRAM_ID, &ma, &er, &mut sh, &tm, &ata, &tp, &mut pairs, 1, 1100);
    assert_eq!(r, Err(BOQError::MalformedInput));
}

#[test]
fn zero_pairs_succeed_without_minting() {
    let (ma, er, mut sh, tm, ata, tp) = fixed_accounts();
    let mut pairs: Vec<EmployeePair> = Vec::new();
    let r = Processor::process_shift(&PROGRAM_ID, &ma, &er, &mut sh, &tm, &ata, &tp, &mut pairs, 0, 1100)
        .unwrap();
    assert!(r.is_none());
}
