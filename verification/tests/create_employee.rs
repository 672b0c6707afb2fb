use boq_shift::account::Account;
use boq_shift::error::BOQError;
use boq_shift::processor::{HostAction, Processor};
use boq_shift::state::{BOQEmployer, EMPLOYEE_SIZE};

const PROGRAM_ID: [u8; 32] = [41u8; 32];
const TOKEN_MINT: [u8; 32] = [42u8; 32];
const COLLECTION_MINT: [u8; 32] = [43u8; 32];
const NFT_MINT: [u8; 32] = [44u8; 32];

fn plain(key: [u8; 32], owner: [u8; 32], data: Vec<u8>) -> Account {
    Account { key, owner, is_signer: false, is_writable: true, data }
}

fn push_string(out: &mut Vec<u8>, s: &str) {
    out.extend_from_slice(&(s.len() as u32).to_le_bytes());
    out.extend_from_slice(s.as_bytes());
}

/// Serializes a minimal metadata-registry record: the record kind byte, the
/// update authority and mint addresses, empty display strings, no creators,
/// two flag bytes, no edition nonce or token standard, the collection
/// assertion, and no uses, collection details or programmable config.
fn metadata_bytes(mint: [u8; 32], collection: Option<([u8; 32], bool)>) -> Vec<u8> {
    let mut out: Vec<u8> = Vec::new();
    out.push(4);
    out.extend_from_slice(&[0u8; 32]);
    out.extend_from_slice(&mint);
    push_string(&mut out, "");
    push_string(&mut out, "");
    push_string(&mut out, "");
    out.extend_from_slice(&0u16.to_le_bytes());
    out.push(0);
    out.push(0);
    out.push(0);
    out.push(0);
    out.push(0);
    match collection {
        Some((key, verified)) => {
            out.push(1);
            out.push(if verified { 1 } else { 0 });
            out.extend_from_slice(&key);
        },
        None => out.push(0),
    }
    out.push(0);
    out.push(0);
    out.push(0);
    out
}

fn employer_account(employees: u16, max_employees: u16) -> Account {
    let mut record = BOQEmployer::new(
        0,
        true,
        10,
        max_employees,
        1000,
        250_000,
        100_000,
        TOKEN_MINT,
        COLLECTION_MINT,
    );
    record.employees = employees;
    plain([51; 32], PROGRAM_ID, record.to_bytes())
}

fn mpl_owner() -> [u8; 32] {
    mpl_token_metadata::ID.to_bytes()
}

fn run(
    employer: &mut Account,
    metadata_owner: [u8; 32],
    metadata_data: Vec<u8>,
) -> Result<Option<HostAction>, BOQError> {
    let nft_token = plain(NFT_MINT, [0; 32], Vec::new());
    let nft_metadata = plain([52; 32], metadata_owner, metadata_data);
    let payer = plain([53; 32], [0; 32], Vec::new());
    let pda = plain([54; 32], [0; 32], Vec::new());
    let program_account = plain([55; 32], [0; 32], Vec::new());
    Processor::process_create_employee(
        &PROGRAM_ID,
        &mpl_owner(),
        employer,
        &nft_token,
        &nft_metadata,
        &payer,
        &pda,
        &program_account,
        7,
    )
}

#[test]
fn verified_member_is_admitted_and_counted() {
    let mut employer = employer_account(0, 10);
    let data = metadata_bytes(NFT_MINT, Some((COLLECTION_MINT, true)));
    let action = run(&mut employer, mpl_owner(), data).unwrap().unwrap();
    match action {
        HostAction::CreateAccount { space, seeds, owner, .. } => {
            assert_eq!(space, EMPLOYEE_SIZE);
            assert_eq!(owner, [55; 32]);
            assert_eq!(seeds, vec![b"employee".to_vec(), NFT_MINT.to_vec(), vec![7]]);
        },
        _ => panic!("expected an allocation"),
    }
    let record = BOQEmployer::from_bytes(&employer.data).unwrap();
    assert_eq!(record.employees, 1);
}

#[test]
fn at_capacity_the_request_is_a_silent_noop() {
    let mut employer = employer_account(10, 10);
    let before = employer.data.clone();
    let data = metadata_bytes(NFT_MINT, Some((COLLECTION_MINT, true)));
    assert_eq!(run(&mut employer, mpl_owner(), data), Ok(None));
    assert_eq!(employer.data, before);
}

#[test]
fn unverified_membership_is_rejected() {
    let mut employer = employer_account(0, 10);
    let data = metadata_bytes(NFT_MINT, Some((COLLECTION_MINT, false)));
    assert_eq!(run(&mut employer, mpl_owner(), data), Err(BOQError::AssertionFailed));
    assert_eq!(BOQEmployer::from_bytes(&employer.data).unwrap().employees, 0);
}

#[test]
fn missing_collection_is_rejected() {
    let mut employer = employer_account(0, 10);
    let data = metadata_bytes(NFT_MINT, None);
    assert_eq!(run(&mut employer, mpl_owner(), data), Err(BOQError::AssertionFailed));
}

#[test]
fn foreign_collection_is_rejected() {
    let mut employer = employer_account(0, 10);
    let data = metadata_bytes(NFT_MINT, Some(([99; 32], true)));
    assert_eq!(run(&mut employer, mpl_owner(), data), Err(BOQError::AddressMismatch));
}

#[test]
fn metadata_for_another_mint_is_rejected() {
    let mut employer = employer_account(0, 10);
    let data = metadata_bytes([77; 32], Some((COLLECTION_MINT, true)));
    assert_eq!(run(&mut employer, mpl_owner(), data), Err(BOQError::AddressMismatch));
}

#[test]
fn metadata_outside_the_registry_is_rejected() {
    let mut employer = employer_account(0, 10);
    let data = metadata_bytes(NFT_MINT, Some((COLLECTION_MINT, true)));
    assert_eq!(run(&mut employer, [88; 32], data), Err(BOQError::WrongOwner));
}

#[test]
fn undecodable_metadata_is_rejected() {
    let mut employer = employer_account(0, 10);
    assert_eq!(run(&mut employer, mpl_owner(), vec![4u8, 1u8]), Err(BOQError::MalformedInput));
}

#[test]
fn untyped_employer_record_is_rejected() {
    let mut employer = plain([51; 32], PROGRAM_ID, vec![0u8; 111]);
    let data = metadata_bytes(NFT_MINT, Some((COLLECTION_MINT, true)));
    assert_eq!(run(&mut employer, mpl_owner(), data), Err(BOQError::NotInitialized));
}
