use vstd::prelude::*;

use crate::account::{read_address, Address};
use crate::error::BOQError;
use vstd::bytes::{
    lemma_auto_spec_u16_to_from_le_bytes, lemma_auto_spec_u64_to_from_le_bytes,
    spec_u16_from_le_bytes, spec_u16_to_le_bytes, spec_u64_from_le_bytes, spec_u64_to_le_bytes,
    u16_from_le_bytes, u16_to_le_bytes, u64_from_le_bytes, u64_to_le_bytes,
};
use vstd::slice::slice_subrange;

verus! {

/// Exact byte size of a mint-authority record.
pub const MINT_AUTHORITY_SIZE: usize = 2;

/// Exact byte size of an employer record.
pub const EMPLOYER_SIZE: usize = 111;

/// Exact byte size of an employee record.
pub const EMPLOYEE_SIZE: usize = 50;

/// Exact byte size of a shift record.
pub const SHIFT_SIZE: usize = 58;

/// The kind tag that leads every record. A record is initialized exactly when
/// its tag equals the kind expected of it, so the tag doubles as the
/// initialized/uninitialized marker.
#[derive(Clone, Copy, Debug, PartialEq, Eq, Structural)]
pub enum BOQAccountType {
    Uninitialized,
    MintAuthority,
    Employer,
    Employee,
    Shift,
}

impl Default for BOQAccountType {
    /// A freshly allocated, all-zero record reads as `Uninitialized`.
    fn default() -> (r: Self)
        ensures
            r == BOQAccountType::Uninitialized,
    {
        BOQAccountType::Uninitialized
    }
}

/// The byte a kind tag is stored as.
pub open spec fn spec_kind_tag(t: BOQAccountType) -> u8 {
    match t {
        BOQAccountType::Uninitialized => 0,
        BOQAccountType::MintAuthority => 1,
        BOQAccountType::Employer => 2,
        BOQAccountType::Employee => 3,
        BOQAccountType::Shift => 4,
    }
}

/// The kind tag a byte decodes to.
pub open spec fn spec_kind_of_tag(b: u8) -> BOQAccountType
    recommends
        b <= 4,
{
    if b == 0 {
        BOQAccountType::Uninitialized
    } else if b == 1 {
        BOQAccountType::MintAuthority
    } else if b == 2 {
        BOQAccountType::Employer
    } else if b == 3 {
        BOQAccountType::Employee
    } else {
        BOQAccountType::Shift
    }
}

/// Encodes a kind tag as its byte.
pub fn kind_tag(t: &BOQAccountType) -> (r: u8)
    ensures
        r == spec_kind_tag(*t),
{
    match t {
        BOQAccountType::Uninitialized => 0,
        BOQAccountType::MintAuthority => 1,
        BOQAccountType::Employer => 2,
        BOQAccountType::Employee => 3,
        BOQAccountType::Shift => 4,
    }
}

/// Decodes a byte into a kind tag; bytes above the last kind are rejected.
pub fn kind_of_tag(b: u8) -> (r: Option<BOQAccountType>)
    ensures
        r is Some <==> b <= 4,
        r matches Some(k) ==> k == spec_kind_of_tag(b) && spec_kind_tag(k) == b,
{
    if b == 0 {
        Some(BOQAccountType::Uninitialized)
    } else if b == 1 {
        Some(BOQAccountType::MintAuthority)
    } else if b == 2 {
        Some(BOQAccountType::Employer)
    } else if b == 3 {
        Some(BOQAccountType::Employee)
    } else if b == 4 {
        Some(BOQAccountType::Shift)
    } else {
        None
    }
}

/// The seed literals of the program's derived addresses.
pub struct BOQSeed;

/// The bytes of the seed literal "mint_authority".
pub open spec fn spec_seed_mint_authority() -> Seq<u8> {
    seq![109u8, 105u8, 110u8, 116u8, 95u8, 97u8, 117u8, 116u8, 104u8, 111u8, 114u8, 105u8, 116u8, 121u8]
}

/// The bytes of the seed literal "employer".
pub open spec fn spec_seed_employer() -> Seq<u8> {
    seq![101u8, 109u8, 112u8, 108u8, 111u8, 121u8, 101u8, 114u8]
}

/// The bytes of the seed literal "employee".
pub open spec fn spec_seed_employee() -> Seq<u8> {
    seq![101u8, 109u8, 112u8, 108u8, 111u8, 121u8, 101u8, 101u8]
}

/// The bytes of the seed literal "shift".
pub open spec fn spec_seed_shift() -> Seq<u8> {
    seq![115u8, 104u8, 105u8, 102u8, 116u8]
}

impl BOQSeed {
    /// The seed literal "mint_authority".
    pub fn mint_authority() -> (s: Vec<u8>)
        ensures
            s@ == spec_seed_mint_authority(),
    {
        let s: Vec<u8> = vec![109u8, 105u8, 110u8, 116u8, 95u8, 97u8, 117u8, 116u8, 104u8, 111u8, 114u8, 105u8, 116u8, 121u8];
        proof {
            assert(s@ =~= spec_seed_mint_authority());
        }
        s
    }

    /// The seed literal "employer".
    pub fn employer() -> (s: Vec<u8>)
        ensures
            s@ == spec_seed_employer(),
    {
        let s: Vec<u8> = vec![101u8, 109u8, 112u8, 108u8, 111u8, 121u8, 101u8, 114u8];
        proof {
            assert(s@ =~= spec_seed_employer());
        }
        s
    }

    /// The seed literal "employee".
    pub fn employee() -> (s: Vec<u8>)
        ensures
            s@ == spec_seed_employee(),
    {
        let s: Vec<u8> = vec![101u8, 109u8, 112u8, 108u8, 111u8, 121u8, 101u8, 101u8];
        proof {
            assert(s@ =~= spec_seed_employee());
        }
        s
    }

    /// The seed literal "shift".
    pub fn shift() -> (s: Vec<u8>)
        ensures
            s@ == spec_seed_shift(),
    {
        let s: Vec<u8> = vec![115u8, 104u8, 105u8, 102u8, 116u8];
        proof {
            assert(s@ =~= spec_seed_shift());
        }
        s
    }
}

/// The one lifecycle predicate all four record kinds share: a record is
/// initialized exactly when its kind tag equals the kind expected of it.
pub trait BOQAccount: Sized {
    /// What "initialized" means for this record kind.
    spec fn spec_initialized(&self) -> bool;

    /// Whether the record is in its typed state.
    fn is_initialized(&self) -> (r: bool)
        ensures
            r == self.spec_initialized(),
    ;
}

// ---------------------------------------------------------------------------
// Codec helpers
// ---------------------------------------------------------------------------

/// Appends the two little-endian bytes of `x`.
pub fn push_u16_le(out: &mut Vec<u8>, x: u16)
    ensures
        final(out)@ == old(out)@ + spec_u16_to_le_bytes(x),
{
    let mut b = u16_to_le_bytes(x);
    out.append(&mut b);
}

/// Appends the eight little-endian bytes of `x`.
pub fn push_u64_le(out: &mut Vec<u8>, x: u64)
    ensures
        final(out)@ == old(out)@ + spec_u64_to_le_bytes(x),
{
    let mut b = u64_to_le_bytes(x);
    out.append(&mut b);
}

/// Appends the 32 bytes of an address.
pub fn push_address(out: &mut Vec<u8>, a: &Address)
    ensures
        final(out)@ == old(out)@ + a@,
{
    out.extend_from_slice(a.as_slice());
}

/// Reads the two bytes at `off` as a little-endian integer.
pub fn read_u16_le(d: &[u8], off: usize) -> (r: u16)
    requires
        off + 2 <= d@.len(),
    ensures
        r == spec_u16_from_le_bytes(d@.subrange(off as int, off + 2)),
{
    let _ = d.len();
    u16_from_le_bytes(slice_subrange(d, off, off + 2))
}

/// Reads the eight bytes at `off` as a little-endian integer.
pub fn read_u64_le(d: &[u8], off: usize) -> (r: u64)
    requires
        off + 8 <= d@.len(),
    ensures
        r == spec_u64_from_le_bytes(d@.subrange(off as int, off + 8)),
{
    let _ = d.len();
    u64_from_le_bytes(slice_subrange(d, off, off + 8))
}

// ---------------------------------------------------------------------------
// Mint authority
// ---------------------------------------------------------------------------

/// The singleton capability record whose derived address is the sole
/// authority permitted to mint reward tokens.
#[derive(Clone, Debug, PartialEq)]
pub struct BOQMintAuthority {
    pub account_type: BOQAccountType,
    pub bump: u8,
}

/// The mathematical model of a mint-authority record.
#[verifier::ext_equal]
pub ghost struct MintAuthorityView {
    pub account_type: BOQAccountType,
    pub bump: u8,
}

impl View for BOQMintAuthority {
    type V = MintAuthorityView;

    open spec fn view(&self) -> MintAuthorityView {
        MintAuthorityView { account_type: self.account_type, bump: self.bump }
    }
}

/// The serialized bytes of a mint-authority record.
pub open spec fn spec_mint_authority_bytes(v: MintAuthorityView) -> Seq<u8> {
    seq![spec_kind_tag(v.account_type), v.bump]
}

/// Whether `d` decodes as a mint-authority record.
pub open spec fn spec_mint_authority_valid(d: Seq<u8>) -> bool {
    d.len() == MINT_AUTHORITY_SIZE && d[0] <= 4
}

/// The record `d` decodes to.
pub open spec fn spec_mint_authority_of(d: Seq<u8>) -> MintAuthorityView
    recommends
        spec_mint_authority_valid(d),
{
    MintAuthorityView { account_type: spec_kind_of_tag(d[0]), bump: d[1] }
}

impl BOQAccount for BOQMintAuthority {
    open spec fn spec_initialized(&self) -> bool {
        self.account_type == BOQAccountType::MintAuthority
    }

    fn is_initialized(&self) -> (r: bool)
        ensures
            r == self.spec_initialized(),
    {
        self.account_type == BOQAccountType::MintAuthority
    }
}

impl BOQMintAuthority {
    /// A fresh, typed mint-authority record.
    pub fn new(bump: u8) -> (r: Self)
        ensures
            r@ == (MintAuthorityView { account_type: BOQAccountType::MintAuthority, bump }),
    {
        Self { account_type: BOQAccountType::MintAuthority, bump }
    }

    /// Serializes the record to its exact wire bytes.
    pub fn to_bytes(&self) -> (out: Vec<u8>)
        ensures
            out@ == spec_mint_authority_bytes(self@),
    {
        let mut out: Vec<u8> = Vec::new();
        out.push(kind_tag(&self.account_type));
        out.push(self.bump);
        proof {
            assert(out@ =~= spec_mint_authority_bytes(self@));
        }
        out
    }

    /// Decodes a record from its exact wire bytes.
    pub fn from_bytes(d: &[u8]) -> (r: Result<Self, BOQError>)
        ensures
            r is Ok <==> spec_mint_authority_valid(d@),
            r matches Ok(m) ==> m@ == spec_mint_authority_of(d@),
            r matches Err(e) ==> e == BOQError::MalformedInput,
    {
        if d.len() != MINT_AUTHORITY_SIZE {
            return Err(BOQError::MalformedInput);
        }
        let kind = match kind_of_tag(d[0]) {
            Some(k) => k,
            None => {
                return Err(BOQError::MalformedInput);
            },
        };
        Ok(Self { account_type: kind, bump: d[1] })
    }
}

// ---------------------------------------------------------------------------
// Employer
// ---------------------------------------------------------------------------

/// The configuration record of one employer: its accrual window, rates, the
/// reward-token mint and the collection that identity tokens must belong to.
#[derive(Clone, Debug, PartialEq)]
pub struct BOQEmployer {
    pub account_type: BOQAccountType,
    pub bump: u8,
    pub is_active: bool,
    pub employees: u16,
    pub max_employees: u16,
    pub start_slot: u64,
    pub end_slot: u64,
    pub slots_per_shift: u64,
    pub base_rate_per_slot: u64,
    pub inflation_rate_per_slot: u64,
    pub token_mint: Address,
    pub collection_mint: Address,
}

/// The mathematical model of an employer record.
#[verifier::ext_equal]
pub ghost struct EmployerView {
    pub account_type: BOQAccountType,
    pub bump: u8,
    pub is_active: bool,
    pub employees: u16,
    pub max_employees: u16,
    pub start_slot: u64,
    pub end_slot: u64,
    pub slots_per_shift: u64,
    pub base_rate_per_slot: u64,
    pub inflation_rate_per_slot: u64,
    pub token_mint: Seq<u8>,
    pub collection_mint: Seq<u8>,
}

impl View for BOQEmployer {
    type V = EmployerView;

    open spec fn view(&self) -> EmployerView {
        EmployerView {
            account_type: self.account_type,
            bump: self.bump,
            is_active: self.is_active,
            employees: self.employees,
            max_employees: self.max_employees,
            start_slot: self.start_slot,
            end_slot: self.end_slot,
            slots_per_shift: self.slots_per_shift,
            base_rate_per_slot: self.base_rate_per_slot,
            inflation_rate_per_slot: self.inflation_rate_per_slot,
            token_mint: self.token_mint@,
            collection_mint: self.collection_mint@,
        }
    }
}

impl EmployerView {
    /// The capacity invariant: the employee counter never exceeds the cap.
    pub open spec fn capacity_ok(self) -> bool {
        self.employees <= self.max_employees
    }
}

/// The serialized bytes of an employer record.
pub open spec fn spec_employer_bytes(v: EmployerView) -> Seq<u8> {
    seq![spec_kind_tag(v.account_type), v.bump, if v.is_active { 1u8 } else { 0u8 }]
        + spec_u16_to_le_bytes(v.employees) + spec_u16_to_le_bytes(v.max_employees)
        + spec_u64_to_le_bytes(v.start_slot) + spec_u64_to_le_bytes(v.end_slot)
        + spec_u64_to_le_bytes(v.slots_per_shift) + spec_u64_to_le_bytes(v.base_rate_per_slot)
        + spec_u64_to_le_bytes(v.inflation_rate_per_slot) + v.token_mint + v.collection_mint
}

/// Whether `d` decodes as an employer record.
pub open spec fn spec_employer_valid(d: Seq<u8>) -> bool {
    d.len() == EMPLOYER_SIZE && d[0] <= 4 && d[2] <= 1
}

/// The record `d` decodes to.
pub open spec fn spec_employer_of(d: Seq<u8>) -> EmployerView
    recommends
        spec_employer_valid(d),
{
    EmployerView {
        account_type: spec_kind_of_tag(d[0]),
        bump: d[1],
        is_active: d[2] == 1,
        employees: spec_u16_from_le_bytes(d.subrange(3, 5)),
        max_employees: spec_u16_from_le_bytes(d.subrange(5, 7)),
        start_slot: spec_u64_from_le_bytes(d.subrange(7, 15)),
        end_slot: spec_u64_from_le_bytes(d.subrange(15, 23)),
        slots_per_shift: spec_u64_from_le_bytes(d.subrange(23, 31)),
        base_rate_per_slot: spec_u64_from_le_bytes(d.subrange(31, 39)),
        inflation_rate_per_slot: spec_u64_from_le_bytes(d.subrange(39, 47)),
        token_mint: d.subrange(47, 79),
        collection_mint: d.subrange(79, 111),
    }
}

/// The employer record that initialization writes: fresh counter, active,
/// with the accrual window `[start_slot, start_slot + max_shifts *
/// slots_per_shift]` and the inflation rate derived as a thousandth of the
/// base rate.
pub open spec fn spec_new_employer(
    bump: u8,
    is_active: bool,
    max_shifts: u16,
    max_employees: u16,
    start_slot: u64,
    slots_per_shift: u64,
    base_rate_per_slot: u64,
    token_mint: Seq<u8>,
    collection_mint: Seq<u8>,
) -> EmployerView {
    EmployerView {
        account_type: BOQAccountType::Employer,
        bump,
        is_active,
        employees: 0,
        max_employees,
        start_slot,
        end_slot: (start_slot + max_shifts * slots_per_shift) as u64,
        slots_per_shift,
        base_rate_per_slot,
        inflation_rate_per_slot: (base_rate_per_slot / 1000) as u64,
        token_mint,
        collection_mint,
    }
}

/// Encoding an employer record and decoding the bytes gives the record back:
/// the wire format loses nothing.
pub proof fn lemma_employer_codec_identity(v: EmployerView)
    requires
        v.token_mint.len() == 32,
        v.collection_mint.len() == 32,
    ensures
        spec_employer_valid(spec_employer_bytes(v)),
        spec_employer_of(spec_employer_bytes(v)) == v,
{
    lemma_auto_spec_u16_to_from_le_bytes();
    lemma_auto_spec_u64_to_from_le_bytes();
    let d = spec_employer_bytes(v);
    assert(d.len() == 111);
    assert(d.subrange(3, 5) =~= spec_u16_to_le_bytes(v.employees));
    assert(d.subrange(5, 7) =~= spec_u16_to_le_bytes(v.max_employees));
    assert(d.subrange(7, 15) =~= spec_u64_to_le_bytes(v.start_slot));
    assert(d.subrange(15, 23) =~= spec_u64_to_le_bytes(v.end_slot));
    assert(d.subrange(23, 31) =~= spec_u64_to_le_bytes(v.slots_per_shift));
    assert(d.subrange(31, 39) =~= spec_u64_to_le_bytes(v.base_rate_per_slot));
    assert(d.subrange(39, 47) =~= spec_u64_to_le_bytes(v.inflation_rate_per_slot));
    assert(d.subrange(47, 79) =~= v.token_mint);
    assert(d.subrange(79, 111) =~= v.collection_mint);
    assert(spec_employer_of(d) =~= v);
}

impl BOQAccount for BOQEmployer {
    open spec fn spec_initialized(&self) -> bool {
        self.account_type == BOQAccountType::Employer
    }

    fn is_initialized(&self) -> (r: bool)
        ensures
            r == self.spec_initialized(),
    {
        self.account_type == BOQAccountType::Employer
    }
}

impl BOQEmployer {
    /// A fresh, typed employer record. The accrual window must fit the slot
    /// counter.
    pub fn new(
        bump: u8,
        is_active: bool,
        max_shifts: u16,
        max_employees: u16,
        start_slot: u64,
        slots_per_shift: u64,
        base_rate_per_slot: u64,
        token_mint: Address,
        collection_mint: Address,
    ) -> (r: Self)
        requires
            start_slot + max_shifts * slots_per_shift <= u64::MAX,
        ensures
            r@ == spec_new_employer(
                bump,
                is_active,
                max_shifts,
                max_employees,
                start_slot,
                slots_per_shift,
                base_rate_per_slot,
                token_mint@,
                collection_mint@,
            ),
    {
        Self {
            account_type: BOQAccountType::Employer,
            bump,
            is_active,
            employees: 0,
            max_employees,
            start_slot,
            end_slot: start_slot + (max_shifts as u64) * slots_per_shift,
            slots_per_shift,
            base_rate_per_slot,
            inflation_rate_per_slot: base_rate_per_slot / 1000,
            token_mint,
            collection_mint,
        }
    }

    /// Serializes the record to its exact wire bytes.
    pub fn to_bytes(&self) -> (out: Vec<u8>)
        ensures
            out@ == spec_employer_bytes(self@),
    {
        let mut out: Vec<u8> = Vec::new();
        out.push(kind_tag(&self.account_type));
        out.push(self.bump);
        out.push(if self.is_active { 1 } else { 0 });
        push_u16_le(&mut out, self.employees);
        push_u16_le(&mut out, self.max_employees);
        push_u64_le(&mut out, self.start_slot);
        push_u64_le(&mut out, self.end_slot);
        push_u64_le(&mut out, self.slots_per_shift);
        push_u64_le(&mut out, self.base_rate_per_slot);
        push_u64_le(&mut out, self.inflation_rate_per_slot);
        push_address(&mut out, &self.token_mint);
        push_address(&mut out, &self.collection_mint);
        proof {
            lemma_auto_spec_u16_to_from_le_bytes();
            lemma_auto_spec_u64_to_from_le_bytes();
            assert(out@ =~= spec_employer_bytes(self@));
        }
        out
    }

    /// Decodes a record from its exact wire bytes.
    pub fn from_bytes(d: &[u8]) -> (r: Result<Self, BOQError>)
        ensures
            r is Ok <==> spec_employer_valid(d@),
            r matches Ok(e) ==> e@ == spec_employer_of(d@),
            r matches Err(e) ==> e == BOQError::MalformedInput,
    {
        if d.len() != EMPLOYER_SIZE {
            return Err(BOQError::MalformedInput);
        }
        let kind = match kind_of_tag(d[0]) {
            Some(k) => k,
            None => {
                return Err(BOQError::MalformedInput);
            },
        };
        if d[2] > 1 {
            return Err(BOQError::MalformedInput);
        }
        let e = Self {
            account_type: kind,
            bump: d[1],
            is_active: d[2] == 1,
            employees: read_u16_le(d, 3),
            max_employees: read_u16_le(d, 5),
            start_slot: read_u64_le(d, 7),
            end_slot: read_u64_le(d, 15),
            slots_per_shift: read_u64_le(d, 23),
            base_rate_per_slot: read_u64_le(d, 31),
            inflation_rate_per_slot: read_u64_le(d, 39),
            token_mint: read_address(d, 47),
            collection_mint: read_address(d, 79),
        };
        proof {
            assert(e@ =~= spec_employer_of(d@));
        }
        Ok(e)
    }
}

// ---------------------------------------------------------------------------
// Employee
// ---------------------------------------------------------------------------

/// One identity token's accrual cursor: the slot it last accrued at and the
/// total slots it has ever accrued.
#[derive(Clone, Debug, PartialEq)]
pub struct BOQEmployee {
    pub account_type: BOQAccountType,
    pub bump: u8,
    pub last_slot: u64,
    pub total_slots: u64,
    pub nft_mint: Address,
}

/// The mathematical model of an employee record.
#[verifier::ext_equal]
pub ghost struct EmployeeView {
    pub account_type: BOQAccountType,
    pub bump: u8,
    pub last_slot: u64,
    pub total_slots: u64,
    pub nft_mint: Seq<u8>,
}

impl View for BOQEmployee {
    type V = EmployeeView;

    open spec fn view(&self) -> EmployeeView {
        EmployeeView {
            account_type: self.account_type,
            bump: self.bump,
            last_slot: self.last_slot,
            total_slots: self.total_slots,
            nft_mint: self.nft_mint@,
        }
    }
}

/// The serialized bytes of an employee record.
pub open spec fn spec_employee_bytes(v: EmployeeView) -> Seq<u8> {
    seq![spec_kind_tag(v.account_type), v.bump] + spec_u64_to_le_bytes(v.last_slot)
        + spec_u64_to_le_bytes(v.total_slots) + v.nft_mint
}

/// Whether `d` decodes as an employee record.
pub open spec fn spec_employee_valid(d: Seq<u8>) -> bool {
    d.len() == EMPLOYEE_SIZE && d[0] <= 4
}

/// The record `d` decodes to.
pub open spec fn spec_employee_of(d: Seq<u8>) -> EmployeeView
    recommends
        spec_employee_valid(d),
{
    EmployeeView {
        account_type: spec_kind_of_tag(d[0]),
        bump: d[1],
        last_slot: spec_u64_from_le_bytes(d.subrange(2, 10)),
        total_slots: spec_u64_from_le_bytes(d.subrange(10, 18)),
        nft_mint: d.subrange(18, 50),
    }
}

impl BOQAccount for BOQEmployee {
    open spec fn spec_initialized(&self) -> bool {
        self.account_type == BOQAccountType::Employee
    }

    fn is_initialized(&self) -> (r: bool)
        ensures
            r == self.spec_initialized(),
    {
        self.account_type == BOQAccountType::Employee
    }
}

impl BOQEmployee {
    /// A fresh, typed employee record with a zeroed cursor.
    pub fn new(bump: u8, mint: Address) -> (r: Self)
        ensures
            r@ == (EmployeeView {
                account_type: BOQAccountType::Employee,
                bump,
                last_slot: 0,
                total_slots: 0,
                nft_mint: mint@,
            }),
    {
        Self { account_type: BOQAccountType::Employee, bump, last_slot: 0, total_slots: 0, nft_mint: mint }
    }

    /// Serializes the record to its exact wire bytes.
    pub fn to_bytes(&self) -> (out: Vec<u8>)
        ensures
            out@ == spec_employee_bytes(self@),
    {
        let mut out: Vec<u8> = Vec::new();
        out.push(kind_tag(&self.account_type));
        out.push(self.bump);
        push_u64_le(&mut out, self.last_slot);
        push_u64_le(&mut out, self.total_slots);
        push_address(&mut out, &self.nft_mint);
        proof {
            lemma_auto_spec_u64_to_from_le_bytes();
            assert(out@ =~= spec_employee_bytes(self@));
        }
        out
    }

    /// Decodes a record from its exact wire bytes.
    pub fn from_bytes(d: &[u8]) -> (r: Result<Self, BOQError>)
        ensures
            r is Ok <==> spec_employee_valid(d@),
            r matches Ok(e) ==> e@ == spec_employee_of(d@),
            r matches Err(e) ==> e == BOQError::MalformedInput,
    {
        if d.len() != EMPLOYEE_SIZE {
            return Err(BOQError::MalformedInput);
        }
        let kind = match kind_of_tag(d[0]) {
            Some(k) => k,
            None => {
                return Err(BOQError::MalformedInput);
            },
        };
        let e = Self {
            account_type: kind,
            bump: d[1],
            last_slot: read_u64_le(d, 2),
            total_slots: read_u64_le(d, 10),
            nft_mint: read_address(d, 18),
        };
        proof {
            assert(e@ =~= spec_employee_of(d@));
        }
        Ok(e)
    }
}

// ---------------------------------------------------------------------------
// Shift
// ---------------------------------------------------------------------------

/// The aggregation record of one participant: running sums of the slots and
/// rewards accrued across every accrual call against that owner.
#[derive(Clone, Debug, PartialEq)]
pub struct BOQShift {
    pub account_type: BOQAccountType,
    pub bump: u8,
    pub slot: u64,
    pub total_slots: u64,
    pub total_rewards: u64,
    pub owner: Address,
}

/// The mathematical model of a shift record.
#[verifier::ext_equal]
pub ghost struct ShiftView {
    pub account_type: BOQAccountType,
    pub bump: u8,
    pub slot: u64,
    pub total_slots: u64,
    pub total_rewards: u64,
    pub owner: Seq<u8>,
}

impl View for BOQShift {
    type V = ShiftView;

    open spec fn view(&self) -> ShiftView {
        ShiftView {
            account_type: self.account_type,
            bump: self.bump,
            slot: self.slot,
            total_slots: self.total_slots,
            total_rewards: self.total_rewards,
            owner: self.owner@,
        }
    }
}

/// The serialized bytes of a shift record.
pub open spec fn spec_shift_bytes(v: ShiftView) -> Seq<u8> {
    seq![spec_kind_tag(v.account_type), v.bump] + spec_u64_to_le_bytes(v.slot)
        + spec_u64_to_le_bytes(v.total_slots) + spec_u64_to_le_bytes(v.total_rewards) + v.owner
}

/// Whether `d` decodes as a shift record.
pub open spec fn spec_shift_valid(d: Seq<u8>) -> bool {
    d.len() == SHIFT_SIZE && d[0] <= 4
}

/// The record `d` decodes to.
pub open spec fn spec_shift_of(d: Seq<u8>) -> ShiftView
    recommends
        spec_shift_valid(d),
{
    ShiftView {
        account_type: spec_kind_of_tag(d[0]),
        bump: d[1],
        slot: spec_u64_from_le_bytes(d.subrange(2, 10)),
        total_slots: spec_u64_from_le_bytes(d.subrange(10, 18)),
        total_rewards: spec_u64_from_le_bytes(d.subrange(18, 26)),
        owner: d.subrange(26, 58),
    }
}

impl BOQAccount for BOQShift {
    open spec fn spec_initialized(&self) -> bool {
        self.account_type == BOQAccountType::Shift
    }

    fn is_initialized(&self) -> (r: bool)
        ensures
            r == self.spec_initialized(),
    {
        self.account_type == BOQAccountType::Shift
    }
}

impl BOQShift {
    /// A fresh, typed shift record with zeroed running sums.
    pub fn new(bump: u8, slot: u64, owner: Address) -> (r: Self)
        ensures
            r@ == (ShiftView {
                account_type: BOQAccountType::Shift,
                bump,
                slot,
                total_slots: 0,
                total_rewards: 0,
                owner: owner@,
            }),
    {
        Self { account_type: BOQAccountType::Shift, bump, slot, total_slots: 0, total_rewards: 0, owner }
    }

    /// Serializes the record to its exact wire bytes.
    pub fn to_bytes(&self) -> (out: Vec<u8>)
        ensures
            out@ == spec_shift_bytes(self@),
    {
        let mut out: Vec<u8> = Vec::new();
        out.push(kind_tag(&self.account_type));
        out.push(self.bump);
        push_u64_le(&mut out, self.slot);
        push_u64_le(&mut out, self.total_slots);
        push_u64_le(&mut out, self.total_rewards);
        push_address(&mut out, &self.owner);
        proof {
            lemma_auto_spec_u64_to_from_le_bytes();
            assert(out@ =~= spec_shift_bytes(self@));
        }
        out
    }

    /// Decodes a record from its exact wire bytes.
    pub fn from_bytes(d: &[u8]) -> (r: Result<Self, BOQError>)
        ensures
            r is Ok <==> spec_shift_valid(d@),
            r matches Ok(s) ==> s@ == spec_shift_of(d@),
            r matches Err(e) ==> e == BOQError::MalformedInput,
    {
        if d.len() != SHIFT_SIZE {
            return Err(BOQError::MalformedInput);
        }
        let kind = match kind_of_tag(d[0]) {
            Some(k) => k,
            None => {
                return Err(BOQError::MalformedInput);
            },
        };
        let s = Self {
            account_type: kind,
            bump: d[1],
            slot: read_u64_le(d, 2),
            total_slots: read_u64_le(d, 10),
            total_rewards: read_u64_le(d, 18),
            owner: read_address(d, 26),
        };
        proof {
            assert(s@ =~= spec_shift_of(d@));
        }
        Ok(s)
    }
}

} // verus!
