use boq_shift::state::{
    BOQAccountType, BOQEmployee, BOQEmployer, BOQMintAuthority, BOQShift, EMPLOYEE_SIZE,
    EMPLOYER_SIZE, MINT_AUTHORITY_SIZE, SHIFT_SIZE,
};
use boq_shift::error::BOQError;

#[test]
fn default_account_type_is_uninitialized() {
    assert_eq!(BOQAccountType::default(), BOQAccountType::Uninitialized);
}

#[test]
fn mint_authority_record_roundtrip() {
    let record = BOQMintAuthority::new(7);
    let bytes = record.to_bytes();
    assert_eq!(bytes.len(), MINT_AUTHORITY_SIZE);
    assert_eq!(bytes, vec![1u8, 7u8]);
    let back = BOQMintAuthority::from_bytes(&bytes).unwrap();
    assert_eq!(back, record);
}

#[test]
fn employer_record_roundtrip() {
    let record = BOQEmployer::new(3, true, 10, 20, 1000, 250, 100_000, [5u8; 32], [6u8; 32]);
    assert_eq!(record.employees, 0);
    assert_eq!(record.end_slot, 1000 + 10 * 250);
    assert_eq!(record.inflation_rate_per_slot, 100);
    let bytes = record.to_bytes();
    assert_eq!(bytes.len(), EMPLOYER_SIZE);
    let back = BOQEmployer::from_bytes(&bytes).unwrap();
    assert_eq!(back, record);
}

#[test]
fn employee_record_roundtrip() {
    let record = BOQEmployee::new(9, [8u8; 32]);
    assert_eq!(record.last_slot, 0);
    assert_eq!(record.total_slots, 0);
    let bytes = record.to_bytes();
    assert_eq!(bytes.len(), EMPLOYEE_SIZE);
    let back = BOQEmployee::from_bytes(&bytes).unwrap();
    assert_eq!(back, record);
}

#[test]
fn shift_record_roundtrip() {
    let record = BOQShift::new(2, 77, [9u8; 32]);
    assert_eq!(record.total_slots, 0);
    assert_eq!(record.total_rewards, 0);
    let bytes = record.to_bytes();
    assert_eq!(bytes.len(), SHIFT_SIZE);
    let back = BOQShift::from_bytes(&bytes).unwrap();
    assert_eq!(back, record);
}

#[test]
fn zeroed_storage_reads_as_untyped() {
    let zeroed = vec![0u8; EMPLOYER_SIZE];
    let record = BOQEmployer::from_bytes(&zeroed).unwrap();
    assert_eq!(record.account_type, BOQAccountType::Uninitialized);
    assert!(!record.is_active);
    assert_eq!(record.employees, 0);
}

#[test]
fn unknown_kind_tag_is_rejected() {
    let mut bytes = vec![0u8; EMPLOYEE_SIZE];
    bytes[0] = 5;
    assert_eq!(BOQEmployee::from_bytes(&bytes), Err(BOQError::MalformedInput));
}

#[test]
fn wrong_length_is_rejected() {
    let bytes = vec![0u8; SHIFT_SIZE - 1];
    assert_eq!(BOQShift::from_bytes(&bytes), Err(BOQError::MalformedInput));
}

#[test]
fn employer_flag_byte_above_one_is_rejected() {
    let mut bytes = vec![0u8; EMPLOYER_SIZE];
    bytes[2] = 2;
    assert_eq!(BOQEmployer::from_bytes(&bytes), Err(BOQError::MalformedInput));
}
