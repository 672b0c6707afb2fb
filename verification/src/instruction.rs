use vstd::prelude::*;

use crate::account::Address;

verus! {

/// The decoded command set. The wire decoding of these commands is an
/// external concern; the library receives them already decoded.
#[derive(Clone, Debug, PartialEq)]
pub enum BOQInstruction {
    Test,
    /// Create the mint-authority record's storage.
    CreateMintAuthority { bump: u8 },
    /// Initialize the mint-authority record. Must travel in the same atomic
    /// transaction as its creation.
    InitializeMintAuthority { bump: u8 },
    /// Hand the token mint's authority to `new_authority_pubkey`.
    SetMintAuthority { bump: u8, new_authority_pubkey: Address },
    /// Create the employer record's storage.
    CreateEmployer { bump: u8 },
    /// Initialize the employer record; absent options take their defaults.
    InitializeEmployer {
        bump: u8,
        token_mint: Address,
        collection_mint: Address,
        max_shifts: Option<u16>,
        max_employees: Option<u16>,
        start_slot: Option<u64>,
        slots_per_shift: Option<u64>,
        base_rate_per_slot: Option<u64>,
    },
    /// Create an employee record's storage, gated on capacity and on the
    /// identity token's verified collection membership.
    CreateEmployee { bump: u8 },
    /// Initialize an employee record. Must travel in the same atomic
    /// transaction as its creation.
    InitializeEmployee { bump: u8, nft_mint: Address },
    /// Create a shift record's storage.
    CreateShift { bump: u8 },
    /// Initialize a shift record. Must travel in the same atomic transaction
    /// as its creation.
    InitializeShift { bump: u8, slot: u64, owner: Address },
    /// Run a batched accrual over `number_of_employees` token/employee pairs.
    Shift { number_of_employees: u8 },
}

} // verus!
