use vstd::prelude::*;

use crate::account::{Account, AccountView, Address};
use crate::check::Check;
use crate::engine::{
    lemma_batch_error_persists, run_pair, spec_batch, spec_pair_step, spec_pair_views,
    spec_update_views, EmployeePair, PairView,
};
use crate::error::BOQError;
use crate::instruction::BOQInstruction;
use crate::solana::{
    parse_metadata, spec_associated_token_address, spec_metadata, spec_program_address,
};
use crate::state::{
    spec_employee_bytes, spec_employer_bytes, spec_employer_of, spec_employer_valid,
    spec_employee_of, spec_mint_authority_bytes, spec_mint_authority_of, spec_mint_authority_valid,
    spec_new_employer, spec_seed_employee, spec_seed_employer, spec_seed_mint_authority,
    spec_seed_shift, spec_shift_bytes, spec_shift_of, spec_shift_valid, BOQAccountType,
    BOQEmployee, BOQEmployer, BOQMintAuthority, BOQSeed, BOQShift, EmployeeView, EmployerView,
    MintAuthorityView, ShiftView, EMPLOYEE_SIZE, EMPLOYER_SIZE, MINT_AUTHORITY_SIZE, SHIFT_SIZE,
};
use vstd::arithmetic::div_mod::lemma_fundamental_div_mod_converse;

verus! {

/// An instruction the library asks the host to perform on its behalf. The
/// library only ever decides and describes these; the surrounding program
/// submits them to the host.
#[derive(Debug, PartialEq)]
pub enum HostAction {
    /// Allocate `space` bytes of storage at `new_account`, funded by `payer`
    /// to the minimum retained balance, owned by `owner`, signed for with
    /// `seeds`. The host fails the request if storage already exists there.
    CreateAccount {
        payer: Address,
        new_account: Address,
        owner: Address,
        space: usize,
        seeds: Vec<Vec<u8>>,
    },
    /// Hand the token mint's minting authority to `new_authority`, signed
    /// for by the current authority's derivation `seeds`.
    SetAuthority {
        token_program: Address,
        token_mint: Address,
        new_authority: Address,
        current_authority: Address,
        seeds: Vec<Vec<u8>>,
    },
    /// Mint `amount` reward tokens to `destination`, signed for by the mint
    /// authority's derivation `seeds`.
    MintTo {
        token_program: Address,
        token_mint: Address,
        destination: Address,
        authority: Address,
        amount: u64,
        seeds: Vec<Vec<u8>>,
    },
}

/// The default value of an absent optional field.
pub open spec fn spec_opt<T>(o: Option<T>, d: T) -> T {
    match o {
        Some(v) => v,
        None => d,
    }
}

// ---------------------------------------------------------------------------
// Seed tuples
// ---------------------------------------------------------------------------

/// The mint authority's seed tuple: `("mint_authority", bump)`.
pub open spec fn spec_mint_authority_seeds(bump: u8) -> Seq<Seq<u8>> {
    seq![spec_seed_mint_authority(), seq![bump]]
}

/// The employer's seed tuple: `("employer", bump)`.
pub open spec fn spec_employer_seeds(bump: u8) -> Seq<Seq<u8>> {
    seq![spec_seed_employer(), seq![bump]]
}

/// An employee's seed tuple: `("employee", nft_mint, bump)`.
pub open spec fn spec_employee_seeds(nft_mint: Seq<u8>, bump: u8) -> Seq<Seq<u8>> {
    seq![spec_seed_employee(), nft_mint, seq![bump]]
}

/// A shift's seed tuple: `("shift", owner, bump)`.
pub open spec fn spec_shift_seeds(owner: Seq<u8>, bump: u8) -> Seq<Seq<u8>> {
    seq![spec_seed_shift(), owner, seq![bump]]
}

/// Builds the mint authority's seed tuple.
pub fn mint_authority_seeds(bump: u8) -> (s: Vec<Vec<u8>>)
    ensures
        s.deep_view() == spec_mint_authority_seeds(bump),
{
    let mut s: Vec<Vec<u8>> = Vec::new();
    s.push(BOQSeed::mint_authority());
    let mut b: Vec<u8> = Vec::new();
    b.push(bump);
    s.push(b);
    proof {
        assert(b@ =~= seq![bump]);
        assert(s.deep_view() =~~= spec_mint_authority_seeds(bump));
    }
    s
}

/// Builds the employer's seed tuple.
pub fn employer_seeds(bump: u8) -> (s: Vec<Vec<u8>>)
    ensures
        s.deep_view() == spec_employer_seeds(bump),
{
    let mut s: Vec<Vec<u8>> = Vec::new();
    s.push(BOQSeed::employer());
    let mut b: Vec<u8> = Vec::new();
    b.push(bump);
    s.push(b);
    proof {
        assert(b@ =~= seq![bump]);
        assert(s.deep_view() =~~= spec_employer_seeds(bump));
    }
    s
}

/// Builds an employee's seed tuple.
pub fn employee_seeds(nft_mint: &Address, bump: u8) -> (s: Vec<Vec<u8>>)
    ensures
        s.deep_view() == spec_employee_seeds(nft_mint@, bump),
{
    let mut s: Vec<Vec<u8>> = Vec::new();
    s.push(BOQSeed::employee());
    let mut m: Vec<u8> = Vec::new();
    m.extend_from_slice(nft_mint.as_slice());
    s.push(m);
    let mut b: Vec<u8> = Vec::new();
    b.push(bump);
    s.push(b);
    proof {
        assert(b@ =~= seq![bump]);
        assert(s.deep_view() =~~= spec_employee_seeds(nft_mint@, bump));
    }
    s
}

/// Builds a shift's seed tuple.
pub fn shift_seeds(owner: &Address, bump: u8) -> (s: Vec<Vec<u8>>)
    ensures
        s.deep_view() == spec_shift_seeds(owner@, bump),
{
    let mut s: Vec<Vec<u8>> = Vec::new();
    s.push(BOQSeed::shift());
    let mut o: Vec<u8> = Vec::new();
    o.extend_from_slice(owner.as_slice());
    s.push(o);
    let mut b: Vec<u8> = Vec::new();
    b.push(bump);
    s.push(b);
    proof {
        assert(b@ =~= seq![bump]);
        assert(s.deep_view() =~~= spec_shift_seeds(owner@, bump));
    }
    s
}

/// The first check a mint-authority handover fails on, or `None` where every
/// precondition holds: the mint-authority record must be program-owned and
/// sit at its derived address, and the program's own deployed identity must
/// sign.
pub open spec fn spec_set_authority_error(
    program_id: Seq<u8>,
    mint_authority: AccountView,
    program_account: AccountView,
    bump: u8,
) -> Option<BOQError> {
    if mint_authority.owner != program_id {
        Some(BOQError::WrongOwner)
    } else if spec_program_address(spec_mint_authority_seeds(bump), program_id) != Some(
        mint_authority.key,
    ) {
        Some(BOQError::AddressMismatch)
    } else if !program_account.is_signer {
        Some(BOQError::MissingSignature)
    } else if program_account.key != program_id {
        Some(BOQError::AddressMismatch)
    } else {
        None
    }
}

/// What an employee-creation request decides: an error, a silent no-op at
/// capacity (`Ok(false)`), or an admission (`Ok(true)`) — granted only below
/// capacity, with the identity token described by a registry-owned metadata
/// record whose collection assertion is verified and names the employer's
/// designated collection.
pub open spec fn spec_create_employee_outcome(
    metadata_program_id: Seq<u8>,
    employer_data: Seq<u8>,
    nft_token_key: Seq<u8>,
    nft_metadata: AccountView,
) -> Result<bool, BOQError> {
    let erec = spec_employer_of(employer_data);
    if !spec_employer_valid(employer_data) {
        Err(BOQError::MalformedInput)
    } else if erec.account_type != BOQAccountType::Employer {
        Err(BOQError::NotInitialized)
    } else if !(erec.employees < erec.max_employees) {
        Ok(false)
    } else if nft_metadata.owner != metadata_program_id {
        Err(BOQError::WrongOwner)
    } else {
        match spec_metadata(nft_metadata.data) {
            None => Err(BOQError::MalformedInput),
            Some((mint, coll)) => if mint != nft_token_key {
                Err(BOQError::AddressMismatch)
            } else {
                match coll {
                    None => Err(BOQError::AssertionFailed),
                    Some((ckey, verified)) => if !verified {
                        Err(BOQError::AssertionFailed)
                    } else if ckey != erec.collection_mint {
                        Err(BOQError::AddressMismatch)
                    } else {
                        Ok(true)
                    },
                }
            },
        }
    }
}

/// The first check a batched accrual fails on, before its loop runs, or
/// `None` where every precondition holds: the mint-authority, employer and
/// shift records must be program-owned, decodable and typed, the supplied
/// mint must be the employer's reward mint, the receiving account must be the
/// canonical associated token address for the shift's owner, the current slot
/// must lie inside the employer's accrual window, and the request must carry
/// one token/employee pair per counted employee.
pub open spec fn spec_shift_precheck_error(
    program_id: Seq<u8>,
    mint_authority: AccountView,
    employer: AccountView,
    shift: AccountView,
    token_mint: AccountView,
    ata: AccountView,
    pairs_len: int,
    n: int,
    current_slot: u64,
) -> Option<BOQError> {
    let er = spec_employer_of(employer.data);
    let sh = spec_shift_of(shift.data);
    if mint_authority.owner != program_id {
        Some(BOQError::WrongOwner)
    } else if !spec_mint_authority_valid(mint_authority.data) {
        Some(BOQError::MalformedInput)
    } else if spec_mint_authority_of(mint_authority.data).account_type
        != BOQAccountType::MintAuthority {
        Some(BOQError::NotInitialized)
    } else if employer.owner != program_id {
        Some(BOQError::WrongOwner)
    } else if !spec_employer_valid(employer.data) {
        Some(BOQError::MalformedInput)
    } else if er.account_type != BOQAccountType::Employer {
        Some(BOQError::NotInitialized)
    } else if shift.owner != program_id {
        Some(BOQError::WrongOwner)
    } else if !spec_shift_valid(shift.data) {
        Some(BOQError::MalformedInput)
    } else if sh.account_type != BOQAccountType::Shift {
        Some(BOQError::NotInitialized)
    } else if token_mint.key != er.token_mint {
        Some(BOQError::AddressMismatch)
    } else if ata.key != spec_associated_token_address(sh.owner, token_mint.key) {
        Some(BOQError::AddressMismatch)
    } else if !(er.start_slot <= current_slot && current_slot <= er.end_slot) {
        Some(BOQError::AssertionFailed)
    } else if pairs_len < n {
        Some(BOQError::MalformedInput)
    } else {
        None
    }
}

/// The token/employee pairs that trail the six leading accounts of a batched
/// accrual request, one pair per two accounts.
pub open spec fn spec_tail_pairs(accounts: Seq<Account>) -> Seq<PairView>
    recommends
        accounts.len() >= 6,
{
    Seq::new(
        (((accounts.len() - 6) / 2)) as nat,
        |k: int| PairView { token: accounts[6 + 2 * k]@, employee: accounts[6 + 2 * k + 1]@ },
    )
}

/// The record-lifecycle and reward-accrual handlers, one per command.
pub struct Processor;

impl Processor {
    /// The no-op test command.
    pub fn process_test() -> (r: Result<(), BOQError>)
        ensures
            r is Ok,
    {
        Ok(())
    }

    /// Describes the allocation of a derived-address record of `space` bytes.
    ///
    /// Where `sign` is set, the program's own deployed identity must co-sign
    /// the request, so that no unrelated party can race the allocation.
    pub fn process_create_pda(
        payer: &Account,
        pda: &Account,
        program_account: &Account,
        space: usize,
        seeds: Vec<Vec<u8>>,
        sign: bool,
    ) -> (r: Result<HostAction, BOQError>)
        ensures
            r is Ok <==> (!sign || program_account.is_signer),
            r matches Ok(a) ==> a == (HostAction::CreateAccount {
                payer: payer.key,
                new_account: pda.key,
                owner: program_account.key,
                space,
                seeds,
            }),
            r matches Err(e) ==> e == BOQError::MissingSignature,
    {
        if sign {
            Check::signer(program_account)?;
        }
        Ok(
            HostAction::CreateAccount {
                payer: payer.key,
                new_account: pda.key,
                owner: program_account.key,
                space,
                seeds,
            },
        )
    }

    /// Describes the allocation of the mint-authority record.
    pub fn process_create_mint_authority(
        payer: &Account,
        pda: &Account,
        program_account: &Account,
        bump: u8,
    ) -> (r: Result<HostAction, BOQError>)
        ensures
            r is Ok <==> program_account.is_signer,
            r matches Ok(a) ==> a matches HostAction::CreateAccount {
                payer: p,
                new_account: n,
                owner: o,
                space,
                seeds,
            } && p@ == payer.key@ && n@ == pda.key@ && o@ == program_account.key@ && space
                == MINT_AUTHORITY_SIZE && seeds.deep_view() == spec_mint_authority_seeds(bump),
            r matches Err(e) ==> e == BOQError::MissingSignature,
    {
        Self::process_create_pda(
            payer,
            pda,
            program_account,
            MINT_AUTHORITY_SIZE,
            mint_authority_seeds(bump),
            true,
        )
    }

    /// Writes the typed mint-authority record into untyped storage.
    ///
    /// Performs no signer check by design: it must travel in the same atomic
    /// transaction as the record's creation, which closes the window in
    /// which a third party could initialize the bare allocation first.
    pub fn process_initialize_mint_authority(mint_authority: &mut Account, bump: u8) -> (r: Result<
        (),
        BOQError,
    >)
        ensures
            ({
                let d = old(mint_authority)@.data;
                &&& r is Ok <==> (spec_mint_authority_valid(d) && spec_mint_authority_of(d).account_type
                    != BOQAccountType::MintAuthority)
                &&& r is Ok ==> final(mint_authority)@.data == spec_mint_authority_bytes(
                    MintAuthorityView { account_type: BOQAccountType::MintAuthority, bump },
                )
                &&& r is Err ==> final(mint_authority)@.data == d
                &&& final(mint_authority)@.same_handle(old(mint_authority)@)
                &&& !spec_mint_authority_valid(d) ==> r == Err::<(), BOQError>(
                    BOQError::MalformedInput,
                )
                &&& spec_mint_authority_valid(d) && spec_mint_authority_of(d).account_type
                    == BOQAccountType::MintAuthority ==> r == Err::<(), BOQError>(
                    BOQError::AlreadyInitialized,
                )
            }),
    {
        let record = match BOQMintAuthority::from_bytes(mint_authority.data.as_slice()) {
            Ok(m) => m,
            Err(e) => {
                return Err(e);
            },
        };
        Check::uninitialized(&record, mint_authority)?;
        mint_authority.data = BOQMintAuthority::new(bump).to_bytes();
        Ok(())
    }

    /// Describes handing the token mint's authority to a new holder.
    ///
    /// The mint-authority record must be owned by this program and sit at
    /// its derived address, and the program's own deployed identity must
    /// sign.
    pub fn process_set_mint_authority(
        program_id: &Address,
        token_mint: &Account,
        mint_authority: &Account,
        program_account: &Account,
        token_program: &Account,
        bump: u8,
        new_authority_pubkey: &Address,
    ) -> (r: Result<HostAction, BOQError>)
        ensures
            ({
                let pe = spec_set_authority_error(program_id@, mint_authority@, program_account@, bump);
                &&& r is Ok <==> pe is None
                &&& pe matches Some(e) ==> r == Err::<HostAction, BOQError>(e)
                &&& r matches Ok(a) ==> a matches HostAction::SetAuthority {
                    token_program: tp,
                    token_mint: tm,
                    new_authority: na,
                    current_authority: ca,
                    seeds,
                } && tp@ == token_program.key@ && tm@ == token_mint.key@ && na@
                    == new_authority_pubkey@ && ca@ == mint_authority.key@ && seeds.deep_view()
                    == spec_mint_authority_seeds(bump)
            }),
    {
        Check::owner(mint_authority, program_id)?;
        let seeds = mint_authority_seeds(bump);
        Check::pda(program_id, mint_authority, &seeds)?;
        Check::signer(program_account)?;
        Check::pubkey(&program_account.key, program_id)?;
        Ok(
            HostAction::SetAuthority {
                token_program: token_program.key,
                token_mint: token_mint.key,
                new_authority: *new_authority_pubkey,
                current_authority: mint_authority.key,
                seeds,
            },
        )
    }

    /// Describes the allocation of the employer record.
    pub fn process_create_employer(
        payer: &Account,
        pda: &Account,
        program_account: &Account,
        bump: u8,
    ) -> (r: Result<HostAction, BOQError>)
        ensures
            r is Ok <==> program_account.is_signer,
            r matches Ok(a) ==> a matches HostAction::CreateAccount {
                payer: p,
                new_account: n,
                owner: o,
                space,
                seeds,
            } && p@ == payer.key@ && n@ == pda.key@ && o@ == program_account.key@ && space
                == EMPLOYER_SIZE && seeds.deep_view() == spec_employer_seeds(bump),
            r matches Err(e) ==> e == BOQError::MissingSignature,
    {
        Self::process_create_pda(
            payer,
            pda,
            program_account,
            EMPLOYER_SIZE,
            employer_seeds(bump),
            true,
        )
    }

    /// Writes the typed employer record into untyped storage. Absent options
    /// take their defaults; the accrual window and the inflation rate are
    /// derived once here and never recomputed.
    ///
    /// Performs no signer check by design: it must travel in the same atomic
    /// transaction as the record's creation.
    pub fn process_initialize_employer(
        employer: &mut Account,
        bump: u8,
        token_mint: &Address,
        collection_mint: &Address,
        max_shifts: Option<u16>,
        max_employees: Option<u16>,
        start_slot: Option<u64>,
        slots_per_shift: Option<u64>,
        base_rate_per_slot: Option<u64>,
        current_slot: u64,
    ) -> (r: Result<(), BOQError>)
        requires
            spec_opt(start_slot, current_slot) + spec_opt(max_shifts, 10000) * spec_opt(
                slots_per_shift,
                250000,
            ) <= u64::MAX,
        ensures
            ({
                let d = old(employer)@.data;
                &&& r is Ok <==> (spec_employer_valid(d) && spec_employer_of(d).account_type
                    != BOQAccountType::Employer)
                &&& r is Ok ==> final(employer)@.data == spec_employer_bytes(
                    spec_new_employer(
                        bump,
                        true,
                        spec_opt(max_shifts, 10000),
                        spec_opt(max_employees, 10000),
                        spec_opt(start_slot, current_slot),
                        spec_opt(slots_per_shift, 250000),
                        spec_opt(base_rate_per_slot, 100000),
                        token_mint@,
                        collection_mint@,
                    ),
                )
                &&& r is Err ==> final(employer)@.data == d
                &&& final(employer)@.same_handle(old(employer)@)
                &&& !spec_employer_valid(d) ==> r == Err::<(), BOQError>(BOQError::MalformedInput)
                &&& spec_employer_valid(d) && spec_employer_of(d).account_type
                    == BOQAccountType::Employer ==> r == Err::<(), BOQError>(
                    BOQError::AlreadyInitialized,
                )
            }),
    {
        let record = match BOQEmployer::from_bytes(employer.data.as_slice()) {
            Ok(e) => e,
            Err(e) => {
                return Err(e);
            },
        };
        Check::uninitialized(&record, employer)?;
        let max_shifts = match max_shifts {
            Some(v) => v,
            None => 10_000,
        };
        let max_employees = match max_employees {
            Some(v) => v,
            None => 10_000,
        };
        let start_slot = match start_slot {
            Some(v) => v,
            None => current_slot,
        };
        let slots_per_shift = match slots_per_shift {
            Some(v) => v,
            None => 250_000,
        };
        let base_rate_per_slot = match base_rate_per_slot {
            Some(v) => v,
            None => 100_000,
        };
        employer.data = BOQEmployer::new(
            bump,
            true,
            max_shifts,
            max_employees,
            start_slot,
            slots_per_shift,
            base_rate_per_slot,
            *token_mint,
            *collection_mint,
        ).to_bytes();
        Ok(())
    }

    /// Gates and describes the allocation of an employee record.
    ///
    /// Creation is conditional on capacity: at capacity the request succeeds
    /// as a no-op and callers must read the counter themselves to detect it.
    /// Below capacity, the identity token must be described by a metadata
    /// record owned by the registry whose collection assertion is verified
    /// and names the employer's designated collection; the employer's
    /// counter is then incremented atomically with the described allocation.
    pub fn process_create_employee(
        program_id: &Address,
        metadata_program_id: &Address,
        employer: &mut Account,
        nft_token: &Account,
        nft_metadata: &Account,
        payer: &Account,
        pda: &Account,
        program_account: &Account,
        bump: u8,
    ) -> (r: Result<Option<HostAction>, BOQError>)
        ensures
            ({
                let d = old(employer)@.data;
                let erec = spec_employer_of(d);
                let outcome = spec_create_employee_outcome(
                    metadata_program_id@,
                    d,
                    nft_token.key@,
                    nft_metadata@,
                );
                &&& outcome matches Err(e) ==> r == Err::<Option<HostAction>, BOQError>(e)
                    && final(employer)@.data == d
                &&& outcome == Ok::<bool, BOQError>(false) ==> r == Ok::<
                    Option<HostAction>,
                    BOQError,
                >(None) && final(employer)@.data == d
                &&& outcome == Ok::<bool, BOQError>(true) ==> {
                    &&& r matches Ok(Some(a)) && a matches HostAction::CreateAccount {
                        payer: p,
                        new_account: n,
                        owner: o,
                        space,
                        seeds,
                    } && p@ == payer.key@ && n@ == pda.key@ && o@ == program_account.key@ && space
                        == EMPLOYEE_SIZE && seeds.deep_view() == spec_employee_seeds(
                        nft_token.key@,
                        bump,
                    )
                    &&& final(employer)@.data == spec_employer_bytes(
                        EmployerView { employees: (erec.employees + 1) as u16, ..erec },
                    )
                }
                &&& final(employer)@.same_handle(old(employer)@)
                &&& spec_employer_valid(d) && erec.capacity_ok() ==> spec_employer_valid(
                    final(employer)@.data,
                ) && spec_employer_of(final(employer)@.data).capacity_ok()
            }),
    {
        let record = match BOQEmployer::from_bytes(employer.data.as_slice()) {
            Ok(e) => e,
            Err(e) => {
                return Err(e);
            },
        };
        Check::initialized(&record, employer)?;
        if record.employees < record.max_employees {
            Check::owner(nft_metadata, metadata_program_id)?;
            let metadata = match parse_metadata(nft_metadata.data.as_slice()) {
                Ok(m) => m,
                Err(e) => {
                    return Err(e);
                },
            };
            Check::pubkey(&metadata.mint, &nft_token.key)?;
            let collection = match metadata.collection {
                Some(c) => c,
                None => {
                    return Err(BOQError::AssertionFailed);
                },
            };
            Check::that(collection.verified, "Unverified collection.")?;
            Check::pubkey(&collection.key, &record.collection_mint)?;
            let action = Self::process_create_pda(
                payer,
                pda,
                program_account,
                EMPLOYEE_SIZE,
                employee_seeds(&nft_token.key, bump),
                false,
            )?;
            let employees = record.employees + 1;
            let updated = BOQEmployer { employees, ..record };
            proof {
                crate::state::lemma_employer_codec_identity(updated@);
            }
            employer.data = updated.to_bytes();
            Ok(Some(action))
        } else {
            Ok(None)
        }
    }

    /// Writes a typed employee record into untyped storage at its derived
    /// address.
    ///
    /// Performs no signer check by design: it must travel in the same atomic
    /// transaction as the record's creation.
    pub fn process_initialize_employee(
        program_id: &Address,
        employee: &mut Account,
        bump: u8,
        nft_mint: &Address,
    ) -> (r: Result<(), BOQError>)
        ensures
            ({
                let d = old(employee)@.data;
                let valid = crate::state::spec_employee_valid(d);
                let untyped = crate::state::spec_employee_of(d).account_type
                    != BOQAccountType::Employee;
                let pda_ok = spec_program_address(spec_employee_seeds(nft_mint@, bump), program_id@)
                    == Some(old(employee)@.key);
                &&& r is Ok <==> (valid && untyped && pda_ok)
                &&& r is Ok ==> final(employee)@.data == spec_employee_bytes(
                    EmployeeView {
                        account_type: BOQAccountType::Employee,
                        bump,
                        last_slot: 0,
                        total_slots: 0,
                        nft_mint: nft_mint@,
                    },
                )
                &&& r is Err ==> final(employee)@.data == d
                &&& final(employee)@.same_handle(old(employee)@)
                &&& !valid ==> r == Err::<(), BOQError>(BOQError::MalformedInput)
                &&& valid && !untyped ==> r == Err::<(), BOQError>(BOQError::AlreadyInitialized)
                &&& valid && untyped && !pda_ok ==> r == Err::<(), BOQError>(
                    BOQError::AddressMismatch,
                )
            }),
    {
        let record = match BOQEmployee::from_bytes(employee.data.as_slice()) {
            Ok(e) => e,
            Err(e) => {
                return Err(e);
            },
        };
        Check::uninitialized(&record, employee)?;
        let seeds = employee_seeds(nft_mint, bump);
        Check::pda(program_id, employee, &seeds)?;
        employee.data = BOQEmployee::new(bump, *nft_mint).to_bytes();
        Ok(())
    }

    /// Describes the allocation of a shift record at the address derived
    /// from its owner. The owner funds the allocation; no co-signer is
    /// required, as the address is already pinned by the owner's key.
    pub fn process_create_shift(
        owner: &Account,
        pda: &Account,
        program_account: &Account,
        bump: u8,
    ) -> (r: Result<HostAction, BOQError>)
        ensures
            r matches Ok(a) && a matches HostAction::CreateAccount {
                payer: p,
                new_account: n,
                owner: o,
                space,
                seeds,
            } && p@ == owner.key@ && n@ == pda.key@ && o@ == program_account.key@ && space
                == SHIFT_SIZE && seeds.deep_view() == spec_shift_seeds(owner.key@, bump),
    {
        Self::process_create_pda(
            owner,
            pda,
            program_account,
            SHIFT_SIZE,
            shift_seeds(&owner.key, bump),
            false,
        )
    }

    /// Writes a typed shift record into untyped storage, with zeroed running
    /// sums and the supplied owner, which is fixed for the record's life.
    ///
    /// Performs no signer check by design: it must travel in the same atomic
    /// transaction as the record's creation.
    pub fn process_initialize_shift(
        shift: &mut Account,
        bump: u8,
        slot: u64,
        owner: &Address,
    ) -> (r: Result<(), BOQError>)
        ensures
            ({
                let d = old(shift)@.data;
                let valid = crate::state::spec_shift_valid(d);
                let untyped = crate::state::spec_shift_of(d).account_type != BOQAccountType::Shift;
                &&& r is Ok <==> (valid && untyped)
                &&& r is Ok ==> final(shift)@.data == spec_shift_bytes(
                    ShiftView {
                        account_type: BOQAccountType::Shift,
                        bump,
                        slot,
                        total_slots: 0,
                        total_rewards: 0,
                        owner: owner@,
                    },
                )
                &&& r is Err ==> final(shift)@.data == d
                &&& final(shift)@.same_handle(old(shift)@)
                &&& !valid ==> r == Err::<(), BOQError>(BOQError::MalformedInput)
                &&& valid && !untyped ==> r == Err::<(), BOQError>(BOQError::AlreadyInitialized)
            }),
    {
        let record = match BOQShift::from_bytes(shift.data.as_slice()) {
            Ok(s) => s,
            Err(e) => {
                return Err(e);
            },
        };
        Check::uninitialized(&record, shift)?;
        shift.data = BOQShift::new(bump, slot, *owner).to_bytes();
        Ok(())
    }

    /// Pays out the accrued wage of a batch of token/employee pairs to the
    /// shift's owner.
    ///
    /// Every precondition is checked before the loop runs; any failure —
    /// including one inside the loop — aborts the whole call with no partial
    /// effect. Within the loop, a pair whose token account does not hold
    /// exactly one token for the shift's owner is skipped, contributing
    /// nothing and mutating nothing; every processed pair advances its
    /// employee's cursor and adds its reward to the shift's running sums.
    /// After the loop a single mint of the batch total is described, or
    /// nothing where the total is zero.
    ///
    /// Performs no signer check by design: the current token holder is
    /// always the correct recipient of the accrued payment.
    #[verifier::loop_isolation(false)]
    pub fn process_shift(
        program_id: &Address,
        mint_authority: &Account,
        employer: &Account,
        shift: &mut Account,
        token_mint: &Account,
        ata: &Account,
        token_program: &Account,
        pairs: &mut Vec<EmployeePair>,
        number_of_employees: u8,
        current_slot: u64,
    ) -> (r: Result<Option<HostAction>, BOQError>)
        ensures
            final(shift)@.same_handle(old(shift)@),
            final(pairs)@.len() == old(pairs)@.len(),
            r is Err ==> *final(shift) == *old(shift) && final(pairs)@ == old(pairs)@,
            ({
                let pe = spec_shift_precheck_error(
                    program_id@,
                    mint_authority@,
                    employer@,
                    old(shift)@,
                    token_mint@,
                    ata@,
                    old(pairs)@.len() as int,
                    number_of_employees as int,
                    current_slot,
                );
                &&& pe matches Some(e) ==> r == Err::<Option<HostAction>, BOQError>(e)
                &&& pe is None ==> ({
                    let er = spec_employer_of(employer@.data);
                    let sh0 = spec_shift_of(old(shift)@.data);
                    let ma = spec_mint_authority_of(mint_authority@.data);
                    match spec_batch(
                        program_id@,
                        er,
                        sh0,
                        spec_pair_views(old(pairs)@),
                        current_slot,
                        number_of_employees as int,
                    ) {
                        Err(e) => r == Err::<Option<HostAction>, BOQError>(e),
                        Ok((sh_n, upds, total)) => {
                            let fpairs = final(pairs)@;
                            let opairs = old(pairs)@;
                            &&& final(shift)@.data == spec_shift_bytes(sh_n)
                            &&& (forall|j: int|
                                0 <= j < number_of_employees as int ==> (match #[trigger] upds[j] {
                                    Some(v) => {
                                        &&& fpairs[j].token == opairs[j].token
                                        &&& fpairs[j].employee.key == opairs[j].employee.key
                                        &&& fpairs[j].employee.owner == opairs[j].employee.owner
                                        &&& fpairs[j].employee.is_signer
                                            == opairs[j].employee.is_signer
                                        &&& fpairs[j].employee.is_writable
                                            == opairs[j].employee.is_writable
                                        &&& fpairs[j].employee.data@ == spec_employee_bytes(v)
                                    },
                                    None => fpairs[j] == opairs[j],
                                }))
                            &&& (forall|j: int|
                                number_of_employees as int <= j < opairs.len()
                                    ==> #[trigger] fpairs[j] == opairs[j])
                            &&& (total == 0 ==> r == Ok::<Option<HostAction>, BOQError>(None))
                            &&& (total > 0 ==> (r matches Ok(Some(a)) && a matches HostAction::MintTo {
                                token_program: tp,
                                token_mint: tm,
                                destination,
                                authority,
                                amount,
                                seeds,
                            } && tp@ == token_program.key@ && tm@ == token_mint.key@ && destination@
                                == ata.key@ && authority@ == mint_authority.key@ && amount == total
                                && seeds.deep_view() == spec_mint_authority_seeds(ma.bump)))
                        },
                    }
                })
            }),
    {
        let n = number_of_employees as usize;
        Check::owner(mint_authority, program_id)?;
        let ma = match BOQMintAuthority::from_bytes(mint_authority.data.as_slice()) {
            Ok(m) => m,
            Err(e) => {
                return Err(e);
            },
        };
        Check::initialized(&ma, mint_authority)?;
        Check::owner(employer, program_id)?;
        let er = match BOQEmployer::from_bytes(employer.data.as_slice()) {
            Ok(e) => e,
            Err(e) => {
                return Err(e);
            },
        };
        Check::initialized(&er, employer)?;
        Check::owner(shift, program_id)?;
        let sh = match BOQShift::from_bytes(shift.data.as_slice()) {
            Ok(s) => s,
            Err(e) => {
                return Err(e);
            },
        };
        Check::initialized(&sh, shift)?;
        Check::pubkey(&token_mint.key, &er.token_mint)?;
        Check::ata(ata, &token_mint.key, &sh.owner)?;
        Check::that(
            current_slot >= er.start_slot && current_slot <= er.end_slot,
            "Mining not available.",
        )?;
        if pairs.len() < n {
            return Err(BOQError::MalformedInput);
        }
        let ghost pid = program_id@;
        let ghost erv = er@;
        let ghost sh0 = sh@;
        let ghost pviews = spec_pair_views(pairs@);
        let mut shift_rec = sh;
        let mut updates: Vec<Option<BOQEmployee>> = Vec::new();
        let mut total: u64 = 0;
        let mut i: usize = 0;
        proof {
            assert(spec_update_views(updates@) =~= Seq::<Option<EmployeeView>>::empty());
        }
        while i < n
            invariant
                i <= n,
                n == number_of_employees as int,
                n <= pairs@.len(),
                pairs@ == old(pairs)@,
                shift@ == old(shift)@,
                pid == program_id@,
                pviews == spec_pair_views(pairs@),
                erv == er@,
                updates@.len() == i,
                spec_batch(pid, erv, sh0, pviews, current_slot, i as int) == Ok::<
                    (ShiftView, Seq<Option<EmployeeView>>, int),
                    BOQError,
                >((shift_rec@, spec_update_views(updates@), total as int)),
            decreases n - i,
        {
            let ghost sh_i = shift_rec@;
            let ghost upds_i = spec_update_views(updates@);
            proof {
                assert(pviews[i as int] == pairs@[i as int]@);
            }
            let p = &pairs[i];
            proof {
                assert(*p == pairs@[i as int]);
                assert(p@ == pviews[i as int]);
            }
            match run_pair(program_id, &er, shift_rec, p, current_slot) {
                Err(e) => {
                    proof {
                        assert(spec_pair_step(pid, erv, sh_i, pviews[i as int], current_slot)
                            == Err::<(ShiftView, Option<EmployeeView>, int), BOQError>(e));
                        assert(spec_batch(pid, erv, sh0, pviews, current_slot, i + 1) == Err::<
                            (ShiftView, Seq<Option<EmployeeView>>, int),
                            BOQError,
                        >(e));
                        lemma_batch_error_persists(
                            pid,
                            erv,
                            sh0,
                            pviews,
                            current_slot,
                            i + 1,
                            n as int,
                        );
                    }
                    return Err(e);
                },
                Ok((s2, upd, w)) => {
                    let new_total = match total.checked_add(w) {
                        Some(t) => t,
                        None => {
                            proof {
                                assert(spec_batch(pid, erv, sh0, pviews, current_slot, i + 1)
                                    == Err::<(ShiftView, Seq<Option<EmployeeView>>, int), BOQError>(
                                    BOQError::AssertionFailed,
                                ));
                                lemma_batch_error_persists(
                                    pid,
                                    erv,
                                    sh0,
                                    pviews,
                                    current_slot,
                                    i + 1,
                                    n as int,
                                );
                            }
                            return Err(BOQError::AssertionFailed);
                        },
                    };
                    shift_rec = s2;
                    updates.push(upd);
                    total = new_total;
                    proof {
                        assert(spec_update_views(updates@) =~= upds_i.push(
                            match upd {
                                Some(u) => Some(u@),
                                None => None::<EmployeeView>,
                            },
                        ));
                        assert(spec_batch(pid, erv, sh0, pviews, current_slot, i + 1) == Ok::<
                            (ShiftView, Seq<Option<EmployeeView>>, int),
                            BOQError,
                        >((shift_rec@, spec_update_views(updates@), total as int)));
                    }
                },
            }
            i = i + 1;
        }
        let ghost upds = spec_update_views(updates@);
        shift.data = shift_rec.to_bytes();
        let mut k: usize = 0;
        while k < n
            invariant
                k <= n,
                n <= old(pairs)@.len(),
                pairs@.len() == old(pairs)@.len(),
                updates@.len() == n,
                upds == spec_update_views(updates@),
                forall|j: int| k <= j < pairs@.len() ==> pairs@[j] == old(pairs)@[j],
                forall|j: int|
                    0 <= j < k ==> (match #[trigger] upds[j] {
                        Some(v) => {
                            &&& pairs@[j].token == old(pairs)@[j].token
                            &&& pairs@[j].employee.key == old(pairs)@[j].employee.key
                            &&& pairs@[j].employee.owner == old(pairs)@[j].employee.owner
                            &&& pairs@[j].employee.is_signer == old(pairs)@[j].employee.is_signer
                            &&& pairs@[j].employee.is_writable
                                == old(pairs)@[j].employee.is_writable
                            &&& pairs@[j].employee.data@ == spec_employee_bytes(v)
                        },
                        None => pairs@[j] == old(pairs)@[j],
                    }),
            decreases n - k,
        {
            match &updates[k] {
                Some(rec) => {
                    let bytes = rec.to_bytes();
                    let pr = &mut pairs[k];
                    pr.employee.data = bytes;
                },
                None => {},
            }
            k = k + 1;
        }
        if total > 0 {
            Ok(
                Some(
                    HostAction::MintTo {
                        token_program: token_program.key,
                        token_mint: token_mint.key,
                        destination: ata.key,
                        authority: mint_authority.key,
                        amount: total,
                        seeds: mint_authority_seeds(ma.bump),
                    },
                ),
            )
        } else {
            Ok(None)
        }
    }

    /// The batched-accrual command as `process` runs it: splits the trailing
    /// accounts into token/employee pairs, runs the accrual, and reassembles
    /// the slice in its original order.
    #[verifier::loop_isolation(false)]
    #[verifier::rlimit(100)]
    fn shift_request(
        program_id: &Address,
        accounts: &mut Vec<Account>,
        number_of_employees: u8,
        current_slot: u64,
    ) -> (r: Result<Vec<HostAction>, BOQError>)
        ensures
            final(accounts)@.len() == old(accounts)@.len(),
            ({
                let n = number_of_employees as int;
                let oacc = old(accounts)@;
                let facc = final(accounts)@;
                &&& oacc.len() < 6 + 2 * n ==> r == Err::<Vec<HostAction>, BOQError>(
                    BOQError::MalformedInput,
                ) && facc == oacc
                &&& oacc.len() >= 6 + 2 * n ==> {
                    let np = (oacc.len() - 6) / 2;
                    let pe = spec_shift_precheck_error(
                        program_id@,
                        oacc[0]@,
                        oacc[1]@,
                        oacc[2]@,
                        oacc[3]@,
                        oacc[4]@,
                        np,
                        n,
                        current_slot,
                    );
                    &&& pe matches Some(e) ==> r == Err::<Vec<HostAction>, BOQError>(e) && facc
                        == oacc
                    &&& pe is None ==> match spec_batch(
                        program_id@,
                        spec_employer_of(oacc[1]@.data),
                        spec_shift_of(oacc[2]@.data),
                        spec_tail_pairs(oacc),
                        current_slot,
                        n,
                    ) {
                        Err(e) => r == Err::<Vec<HostAction>, BOQError>(e) && facc == oacc,
                        Ok((sh_n, upds, total)) => {
                            &&& facc[2]@.data == spec_shift_bytes(sh_n)
                            &&& facc[2]@.same_handle(oacc[2]@)
                            &&& (forall|i: int|
                                0 <= i < 6 && i != 2 ==> #[trigger] facc[i] == oacc[i])
                            &&& (forall|i: int|
                                6 + 2 * n <= i < oacc.len() ==> #[trigger] facc[i] == oacc[i])
                            &&& (forall|j: int|
                                0 <= j < n ==> (match #[trigger] upds[j] {
                                    Some(v) => {
                                        &&& facc[6 + 2 * j] == oacc[6 + 2 * j]
                                        &&& facc[6 + 2 * j + 1].key == oacc[6 + 2 * j + 1].key
                                        &&& facc[6 + 2 * j + 1].owner == oacc[6 + 2 * j + 1].owner
                                        &&& facc[6 + 2 * j + 1].is_signer
                                            == oacc[6 + 2 * j + 1].is_signer
                                        &&& facc[6 + 2 * j + 1].is_writable
                                            == oacc[6 + 2 * j + 1].is_writable
                                        &&& facc[6 + 2 * j + 1].data@ == spec_employee_bytes(v)
                                    },
                                    None => facc[6 + 2 * j] == oacc[6 + 2 * j] && facc[6 + 2 * j
                                        + 1] == oacc[6 + 2 * j + 1],
                                }))
                            &&& (total == 0 ==> (r matches Ok(v) && v@.len() == 0))
                            &&& (total > 0 ==> (r matches Ok(v) && v@.len() == 1
                                && (v@[0] matches HostAction::MintTo {
                                token_program,
                                token_mint,
                                destination,
                                authority,
                                amount,
                                seeds,
                            } && token_program@ == oacc[5]@.key && token_mint@ == oacc[3]@.key
                                && destination@ == oacc[4]@.key && authority@ == oacc[0]@.key
                                && amount == total && seeds.deep_view()
                                == spec_mint_authority_seeds(
                                spec_mint_authority_of(oacc[0]@.data).bump,
                            ))))
                        },
                    }
                }
            }),
    {
        let needed = 6 + 2 * (number_of_employees as usize);
        if accounts.len() < needed {
            return Err(BOQError::MalformedInput);
        }
        let ghost oacc = old(accounts)@;
        let mut tail = accounts.split_off(6);
        let ghost tail0 = tail@;
        proof {
            assert(tail0 =~= oacc.subrange(6, oacc.len() as int));
            assert(accounts@ =~= oacc.subrange(0, 6));
        }
        let mint_authority = accounts.remove(0);
        let employer = accounts.remove(0);
        let mut shift = accounts.remove(0);
        let token_mint = accounts.remove(0);
        let ata = accounts.remove(0);
        let token_program = accounts.remove(0);
        proof {
            assert(mint_authority == oacc[0]);
            assert(employer == oacc[1]);
            assert(shift == oacc[2]);
            assert(token_mint == oacc[3]);
            assert(ata == oacc[4]);
            assert(token_program == oacc[5]);
            assert(accounts@.len() == 0);
        }
        let mut pairs: Vec<EmployeePair> = Vec::new();
        while tail.len() >= 2
            invariant
                2 * pairs@.len() + tail@.len() == tail0.len(),
                tail@ == tail0.subrange(2 * pairs@.len() as int, tail0.len() as int),
                forall|k: int|
                    0 <= k < pairs@.len() ==> (#[trigger] pairs@[k]).token == tail0[2 * k]
                        && pairs@[k].employee == tail0[2 * k + 1],
            decreases tail@.len(),
        {
            let token = tail.remove(0);
            let employee = tail.remove(0);
            pairs.push(EmployeePair { token, employee });
            proof {
                assert(tail@ =~= tail0.subrange(
                    2 * pairs@.len() as int,
                    tail0.len() as int,
                ));
            }
        }
        let ghost np = (oacc.len() - 6) / 2;
        proof {
            lemma_fundamental_div_mod_converse(
                tail0.len() as int,
                2,
                pairs@.len() as int,
                tail0.len() - 2 * pairs@.len(),
            );
            assert(pairs@.len() == np);
            assert(spec_pair_views(pairs@) =~= spec_tail_pairs(oacc));
        }
        let ghost built_pairs = pairs@;
        let outcome = Self::process_shift(
            program_id,
            &mint_authority,
            &employer,
            &mut shift,
            &token_mint,
            &ata,
            &token_program,
            &mut pairs,
            number_of_employees,
            current_slot,
        );
        let ghost fpairs = pairs@;
        let ghost shv = shift;
        accounts.push(mint_authority);
        accounts.push(employer);
        accounts.push(shift);
        accounts.push(token_mint);
        accounts.push(ata);
        accounts.push(token_program);
        let ghost base6 = accounts@;
        proof {
            assert(base6.len() == 6);
            assert(pairs@ =~= fpairs.subrange(
                fpairs.len() - pairs@.len(),
                fpairs.len() as int,
            ));
        }
        while pairs.len() > 0
            invariant
                pairs@.len() <= fpairs.len(),
                pairs@ == fpairs.subrange(fpairs.len() - pairs@.len(), fpairs.len() as int),
                accounts@.len() == 6 + 2 * (fpairs.len() - pairs@.len()),
                forall|i: int| 0 <= i < 6 ==> #[trigger] accounts@[i] == base6[i],
                forall|k: int|
                    0 <= k < fpairs.len() - pairs@.len() ==> #[trigger] accounts@[6 + 2 * k]
                        == fpairs[k].token && accounts@[6 + 2 * k + 1]
                        == fpairs[k].employee,
            decreases pairs@.len(),
        {
            let ghost c0 = fpairs.len() - pairs@.len();
            let pair = pairs.remove(0);
            proof {
                assert(pair == fpairs[c0]);
            }
            let ghost accpre = accounts@;
            accounts.push(pair.token);
            accounts.push(pair.employee);
            proof {
                assert forall|k: int|
                    0 <= k < c0 + 1 implies accounts@[6 + 2 * k] == fpairs[k].token
                        && accounts@[6 + 2 * k + 1] == fpairs[k].employee by {
                    if k < c0 {
                        assert(accounts@[6 + 2 * k] == accpre[6 + 2 * k]);
                        assert(accounts@[6 + 2 * k + 1] == accpre[6 + 2 * k + 1]);
                    } else {
                        assert(accounts@[6 + 2 * k] == fpairs[c0].token);
                        assert(accounts@[6 + 2 * k + 1] == fpairs[c0].employee);
                    }
                }
                assert(pairs@ =~= fpairs.subrange(
                    fpairs.len() - pairs@.len(),
                    fpairs.len() as int,
                ));
            }
        }
        let ghost tailv = tail@;
        accounts.append(&mut tail);
        proof {
            assert(tailv == tail0.subrange(2 * np, tail0.len() as int));
            assert(fpairs.len() == np);
            assert(built_pairs.len() == np);
            assert(accounts@.len() == oacc.len());
            assert forall|i: int| 6 + 2 * np <= i < oacc.len() implies accounts@[i]
                == oacc[i] by {
                assert(accounts@[i] == tailv[i - (6 + 2 * np)]);
                assert(tailv[i - (6 + 2 * np)] == tail0[i - 6]);
                assert(tail0[i - 6] == oacc[i]);
            }
            assert forall|j: int|
                0 <= j < np implies accounts@[6 + 2 * j] == fpairs[j].token && accounts@[6
                + 2 * j + 1] == fpairs[j].employee && built_pairs[j].token == oacc[6 + 2
                * j] && built_pairs[j].employee == oacc[6 + 2 * j + 1] by {
                assert(built_pairs[j].token == tail0[2 * j]);
                assert(built_pairs[j].employee == tail0[2 * j + 1]);
                assert(tail0[2 * j] == oacc[6 + 2 * j]);
                assert(tail0[2 * j + 1] == oacc[6 + 2 * j + 1]);
            }
            if outcome is Err {
                assert(fpairs == built_pairs);
                assert forall|i: int| 0 <= i < oacc.len() implies accounts@[i]
                    == oacc[i] by {
                    if 6 <= i < 6 + 2 * np {
                        vstd::arithmetic::div_mod::lemma_fundamental_div_mod(i - 6, 2);
                        vstd::arithmetic::div_mod::lemma_mod_division_less_than_divisor(
                            i - 6,
                            2,
                        );
                        let k = (i - 6) / 2;
                        assert(i == 6 + 2 * k || i == 6 + 2 * k + 1);
                        assert(accounts@[6 + 2 * k] == oacc[6 + 2 * k]);
                        assert(accounts@[6 + 2 * k + 1] == oacc[6 + 2 * k + 1]);
                    }
                }
                assert(accounts@ =~= oacc);
            } else {
                let n = number_of_employees as int;
                assert(n <= np);
                assert forall|i: int| 6 + 2 * n <= i < 6 + 2 * np implies accounts@[i]
                    == oacc[i] by {
                    vstd::arithmetic::div_mod::lemma_fundamental_div_mod(i - 6, 2);
                    vstd::arithmetic::div_mod::lemma_mod_division_less_than_divisor(
                        i - 6,
                        2,
                    );
                    let k = (i - 6) / 2;
                    assert(n <= k < np);
                    assert(fpairs[k] == built_pairs[k]);
                    assert(i == 6 + 2 * k || i == 6 + 2 * k + 1);
                    assert(accounts@[6 + 2 * k] == oacc[6 + 2 * k]);
                    assert(accounts@[6 + 2 * k + 1] == oacc[6 + 2 * k + 1]);
                }
            }
        }
        match outcome {
            Ok(Some(action)) => {
                let mut out: Vec<HostAction> = Vec::new();
                out.push(action);
                Ok(out)
            },
            Ok(None) => Ok(Vec::new()),
            Err(e) => Err(e),
        }
    }

    /// Routes a decoded command to its handler: each arm forwards the named
    /// accounts, in the order the command's transaction supplies them, and
    /// returns the handler's outcome unchanged. A request that carries too
    /// few accounts fails with `MalformedInput`; no account is ever lost,
    /// reordered, or touched beyond what its handler states.
    #[verifier::loop_isolation(false)]
    #[verifier::rlimit(80)]
    pub fn process(
        program_id: &Address,
        metadata_program_id: &Address,
        instruction: BOQInstruction,
        accounts: &mut Vec<Account>,
        current_slot: u64,
    ) -> (r: Result<Vec<HostAction>, BOQError>)
        ensures
            final(accounts)@.len() == old(accounts)@.len(),
            instruction matches BOQInstruction::Test ==> (r matches Ok(v) && v@.len() == 0)
                && final(accounts)@ == old(accounts)@,
            instruction matches BOQInstruction::CreateMintAuthority { bump } ==> ({
                let oacc = old(accounts)@;
                &&& final(accounts)@ == oacc
                &&& oacc.len() < 4 ==> r == Err::<Vec<HostAction>, BOQError>(
                    BOQError::MalformedInput,
                )
                &&& oacc.len() >= 4 ==> {
                    &&& !oacc[2].is_signer ==> r == Err::<Vec<HostAction>, BOQError>(
                        BOQError::MissingSignature,
                    )
                    &&& oacc[2].is_signer ==> (r matches Ok(v) && v@.len() == 1
                        && (v@[0] matches HostAction::CreateAccount {
                        payer,
                        new_account,
                        owner,
                        space,
                        seeds,
                    } && payer@ == oacc[0]@.key && new_account@ == oacc[1]@.key && owner@
                        == oacc[2]@.key && space == MINT_AUTHORITY_SIZE && seeds.deep_view()
                        == spec_mint_authority_seeds(bump)))
                }
            }),
            instruction matches BOQInstruction::InitializeMintAuthority { bump } ==> ({
                let oacc = old(accounts)@;
                let facc = final(accounts)@;
                &&& oacc.len() < 1 ==> r == Err::<Vec<HostAction>, BOQError>(
                    BOQError::MalformedInput,
                ) && facc == oacc
                &&& oacc.len() >= 1 ==> {
                    let d = oacc[0]@.data;
                    &&& (forall|i: int| 1 <= i < oacc.len() ==> #[trigger] facc[i] == oacc[i])
                    &&& facc[0]@.same_handle(oacc[0]@)
                    &&& spec_mint_authority_valid(d) && spec_mint_authority_of(d).account_type
                        != BOQAccountType::MintAuthority ==> (r matches Ok(v) && v@.len() == 0)
                        && facc[0]@.data == spec_mint_authority_bytes(
                        MintAuthorityView { account_type: BOQAccountType::MintAuthority, bump },
                    )
                    &&& !spec_mint_authority_valid(d) ==> r == Err::<Vec<HostAction>, BOQError>(
                        BOQError::MalformedInput,
                    ) && facc[0]@.data == d
                    &&& spec_mint_authority_valid(d) && spec_mint_authority_of(d).account_type
                        == BOQAccountType::MintAuthority ==> r == Err::<Vec<HostAction>, BOQError>(
                        BOQError::AlreadyInitialized,
                    ) && facc[0]@.data == d
                }
            }),
            instruction matches BOQInstruction::SetMintAuthority {
                bump,
                new_authority_pubkey,
            } ==> ({
                let oacc = old(accounts)@;
                &&& final(accounts)@ == oacc
                &&& oacc.len() < 4 ==> r == Err::<Vec<HostAction>, BOQError>(
                    BOQError::MalformedInput,
                )
                &&& oacc.len() >= 4 ==> {
                    let pe = spec_set_authority_error(program_id@, oacc[1]@, oacc[2]@, bump);
                    &&& pe matches Some(e) ==> r == Err::<Vec<HostAction>, BOQError>(e)
                    &&& pe is None ==> (r matches Ok(v) && v@.len() == 1
                        && (v@[0] matches HostAction::SetAuthority {
                        token_program,
                        token_mint,
                        new_authority,
                        current_authority,
                        seeds,
                    } && token_program@ == oacc[3]@.key && token_mint@ == oacc[0]@.key
                        && new_authority@ == new_authority_pubkey@ && current_authority@
                        == oacc[1]@.key && seeds.deep_view() == spec_mint_authority_seeds(bump)))
                }
            }),
            instruction matches BOQInstruction::CreateEmployer { bump } ==> ({
                let oacc = old(accounts)@;
                &&& final(accounts)@ == oacc
                &&& oacc.len() < 4 ==> r == Err::<Vec<HostAction>, BOQError>(
                    BOQError::MalformedInput,
                )
                &&& oacc.len() >= 4 ==> {
                    &&& !oacc[2].is_signer ==> r == Err::<Vec<HostAction>, BOQError>(
                        BOQError::MissingSignature,
                    )
                    &&& oacc[2].is_signer ==> (r matches Ok(v) && v@.len() == 1
                        && (v@[0] matches HostAction::CreateAccount {
                        payer,
                        new_account,
                        owner,
                        space,
                        seeds,
                    } && payer@ == oacc[0]@.key && new_account@ == oacc[1]@.key && owner@
                        == oacc[2]@.key && space == EMPLOYER_SIZE && seeds.deep_view()
                        == spec_employer_seeds(bump)))
                }
            }),
            instruction matches BOQInstruction::InitializeEmployer {
                bump,
                token_mint,
                collection_mint,
                max_shifts,
                max_employees,
                start_slot,
                slots_per_shift,
                base_rate_per_slot,
            } ==> ({
                let oacc = old(accounts)@;
                let facc = final(accounts)@;
                let fits = spec_opt(start_slot, current_slot) + spec_opt(max_shifts, 10000)
                    * spec_opt(slots_per_shift, 250000) <= u64::MAX;
                &&& oacc.len() < 1 ==> r == Err::<Vec<HostAction>, BOQError>(
                    BOQError::MalformedInput,
                ) && facc == oacc
                &&& oacc.len() >= 1 && !fits ==> r == Err::<Vec<HostAction>, BOQError>(
                    BOQError::AssertionFailed,
                ) && facc == oacc
                &&& oacc.len() >= 1 && fits ==> {
                    let d = oacc[0]@.data;
                    &&& (forall|i: int| 1 <= i < oacc.len() ==> #[trigger] facc[i] == oacc[i])
                    &&& facc[0]@.same_handle(oacc[0]@)
                    &&& spec_employer_valid(d) && spec_employer_of(d).account_type
                        != BOQAccountType::Employer ==> (r matches Ok(v) && v@.len() == 0)
                        && facc[0]@.data == spec_employer_bytes(
                        spec_new_employer(
                            bump,
                            true,
                            spec_opt(max_shifts, 10000),
                            spec_opt(max_employees, 10000),
                            spec_opt(start_slot, current_slot),
                            spec_opt(slots_per_shift, 250000),
                            spec_opt(base_rate_per_slot, 100000),
                            token_mint@,
                            collection_mint@,
                        ),
                    )
                    &&& !spec_employer_valid(d) ==> r == Err::<Vec<HostAction>, BOQError>(
                        BOQError::MalformedInput,
                    ) && facc[0]@.data == d
                    &&& spec_employer_valid(d) && spec_employer_of(d).account_type
                        == BOQAccountType::Employer ==> r == Err::<Vec<HostAction>, BOQError>(
                        BOQError::AlreadyInitialized,
                    ) && facc[0]@.data == d
                }
            }),
            instruction matches BOQInstruction::CreateEmployee { bump } ==> ({
                let oacc = old(accounts)@;
                let facc = final(accounts)@;
                &&& oacc.len() < 7 ==> r == Err::<Vec<HostAction>, BOQError>(
                    BOQError::MalformedInput,
                ) && facc == oacc
                &&& oacc.len() >= 7 ==> {
                    let outcome = spec_create_employee_outcome(
                        metadata_program_id@,
                        oacc[0]@.data,
                        oacc[1]@.key,
                        oacc[2]@,
                    );
                    &&& (forall|i: int| 1 <= i < oacc.len() ==> #[trigger] facc[i] == oacc[i])
                    &&& facc[0]@.same_handle(oacc[0]@)
                    &&& outcome matches Err(e) ==> r == Err::<Vec<HostAction>, BOQError>(e)
                        && facc[0]@.data == oacc[0]@.data
                    &&& outcome == Ok::<bool, BOQError>(false) ==> (r matches Ok(v) && v@.len()
                        == 0) && facc[0]@.data == oacc[0]@.data
                    &&& outcome == Ok::<bool, BOQError>(true) ==> (r matches Ok(v) && v@.len() == 1
                        && (v@[0] matches HostAction::CreateAccount {
                        payer,
                        new_account,
                        owner,
                        space,
                        seeds,
                    } && payer@ == oacc[3]@.key && new_account@ == oacc[4]@.key && owner@
                        == oacc[5]@.key && space == EMPLOYEE_SIZE && seeds.deep_view()
                        == spec_employee_seeds(oacc[1]@.key, bump))) && facc[0]@.data
                        == spec_employer_bytes(
                        EmployerView {
                            employees: (spec_employer_of(oacc[0]@.data).employees + 1) as u16,
                            ..spec_employer_of(oacc[0]@.data)
                        },
                    )
                }
            }),
            instruction matches BOQInstruction::InitializeEmployee { bump, nft_mint } ==> ({
                let oacc = old(accounts)@;
                let facc = final(accounts)@;
                &&& oacc.len() < 1 ==> r == Err::<Vec<HostAction>, BOQError>(
                    BOQError::MalformedInput,
                ) && facc == oacc
                &&& oacc.len() >= 1 ==> {
                    let d = oacc[0]@.data;
                    let valid = crate::state::spec_employee_valid(d);
                    let untyped = spec_employee_of(d).account_type != BOQAccountType::Employee;
                    let pda_ok = spec_program_address(
                        spec_employee_seeds(nft_mint@, bump),
                        program_id@,
                    ) == Some(oacc[0]@.key);
                    &&& (forall|i: int| 1 <= i < oacc.len() ==> #[trigger] facc[i] == oacc[i])
                    &&& facc[0]@.same_handle(oacc[0]@)
                    &&& valid && untyped && pda_ok ==> (r matches Ok(v) && v@.len() == 0)
                        && facc[0]@.data == spec_employee_bytes(
                        EmployeeView {
                            account_type: BOQAccountType::Employee,
                            bump,
                            last_slot: 0,
                            total_slots: 0,
                            nft_mint: nft_mint@,
                        },
                    )
                    &&& !valid ==> r == Err::<Vec<HostAction>, BOQError>(BOQError::MalformedInput)
                        && facc[0]@.data == d
                    &&& valid && !untyped ==> r == Err::<Vec<HostAction>, BOQError>(
                        BOQError::AlreadyInitialized,
                    ) && facc[0]@.data == d
                    &&& valid && untyped && !pda_ok ==> r == Err::<Vec<HostAction>, BOQError>(
                        BOQError::AddressMismatch,
                    ) && facc[0]@.data == d
                }
            }),
            instruction matches BOQInstruction::CreateShift { bump } ==> ({
                let oacc = old(accounts)@;
                &&& final(accounts)@ == oacc
                &&& oacc.len() < 4 ==> r == Err::<Vec<HostAction>, BOQError>(
                    BOQError::MalformedInput,
                )
                &&& oacc.len() >= 4 ==> (r matches Ok(v) && v@.len() == 1
                    && (v@[0] matches HostAction::CreateAccount {
                    payer,
                    new_account,
                    owner,
                    space,
                    seeds,
                } && payer@ == oacc[0]@.key && new_account@ == oacc[1]@.key && owner@
                    == oacc[2]@.key && space == SHIFT_SIZE && seeds.deep_view()
                    == spec_shift_seeds(oacc[0]@.key, bump)))
            }),
            instruction matches BOQInstruction::InitializeShift { bump, slot, owner } ==> ({
                let oacc = old(accounts)@;
                let facc = final(accounts)@;
                &&& oacc.len() < 1 ==> r == Err::<Vec<HostAction>, BOQError>(
                    BOQError::MalformedInput,
                ) && facc == oacc
                &&& oacc.len() >= 1 ==> {
                    let d = oacc[0]@.data;
                    let valid = spec_shift_valid(d);
                    let untyped = spec_shift_of(d).account_type != BOQAccountType::Shift;
                    &&& (forall|i: int| 1 <= i < oacc.len() ==> #[trigger] facc[i] == oacc[i])
                    &&& facc[0]@.same_handle(oacc[0]@)
                    &&& valid && untyped ==> (r matches Ok(v) && v@.len() == 0) && facc[0]@.data
                        == spec_shift_bytes(
                        ShiftView {
                            account_type: BOQAccountType::Shift,
                            bump,
                            slot,
                            total_slots: 0,
                            total_rewards: 0,
                            owner: owner@,
                        },
                    )
                    &&& !valid ==> r == Err::<Vec<HostAction>, BOQError>(BOQError::MalformedInput)
                        && facc[0]@.data == d
                    &&& valid && !untyped ==> r == Err::<Vec<HostAction>, BOQError>(
                        BOQError::AlreadyInitialized,
                    ) && facc[0]@.data == d
                }
            }),
            instruction matches BOQInstruction::Shift { number_of_employees } ==> ({
                let n = number_of_employees as int;
                let oacc = old(accounts)@;
                let facc = final(accounts)@;
                &&& oacc.len() < 6 + 2 * n ==> r == Err::<Vec<HostAction>, BOQError>(
                    BOQError::MalformedInput,
                ) && facc == oacc
                &&& oacc.len() >= 6 + 2 * n ==> {
                    let np = (oacc.len() - 6) / 2;
                    let pe = spec_shift_precheck_error(
                        program_id@,
                        oacc[0]@,
                        oacc[1]@,
                        oacc[2]@,
                        oacc[3]@,
                        oacc[4]@,
                        np,
                        n,
                        current_slot,
                    );
                    &&& pe matches Some(e) ==> r == Err::<Vec<HostAction>, BOQError>(e) && facc
                        == oacc
                    &&& pe is None ==> match spec_batch(
                        program_id@,
                        spec_employer_of(oacc[1]@.data),
                        spec_shift_of(oacc[2]@.data),
                        spec_tail_pairs(oacc),
                        current_slot,
                        n,
                    ) {
                        Err(e) => r == Err::<Vec<HostAction>, BOQError>(e) && facc == oacc,
                        Ok((sh_n, upds, total)) => {
                            &&& facc[2]@.data == spec_shift_bytes(sh_n)
                            &&& facc[2]@.same_handle(oacc[2]@)
                            &&& (forall|i: int|
                                0 <= i < 6 && i != 2 ==> #[trigger] facc[i] == oacc[i])
                            &&& (forall|i: int|
                                6 + 2 * n <= i < oacc.len() ==> #[trigger] facc[i] == oacc[i])
                            &&& (forall|j: int|
                                0 <= j < n ==> (match #[trigger] upds[j] {
                                    Some(v) => {
                                        &&& facc[6 + 2 * j] == oacc[6 + 2 * j]
                                        &&& facc[6 + 2 * j + 1].key == oacc[6 + 2 * j + 1].key
                                        &&& facc[6 + 2 * j + 1].owner == oacc[6 + 2 * j + 1].owner
                                        &&& facc[6 + 2 * j + 1].is_signer
                                            == oacc[6 + 2 * j + 1].is_signer
                                        &&& facc[6 + 2 * j + 1].is_writable
                                            == oacc[6 + 2 * j + 1].is_writable
                                        &&& facc[6 + 2 * j + 1].data@ == spec_employee_bytes(v)
                                    },
                                    None => facc[6 + 2 * j] == oacc[6 + 2 * j] && facc[6 + 2 * j
                                        + 1] == oacc[6 + 2 * j + 1],
                                }))
                            &&& (total == 0 ==> (r matches Ok(v) && v@.len() == 0))
                            &&& (total > 0 ==> (r matches Ok(v) && v@.len() == 1
                                && (v@[0] matches HostAction::MintTo {
                                token_program,
                                token_mint,
                                destination,
                                authority,
                                amount,
                                seeds,
                            } && token_program@ == oacc[5]@.key && token_mint@ == oacc[3]@.key
                                && destination@ == oacc[4]@.key && authority@ == oacc[0]@.key
                                && amount == total && seeds.deep_view()
                                == spec_mint_authority_seeds(
                                spec_mint_authority_of(oacc[0]@.data).bump,
                            ))))
                        },
                    }
                }
            }),
    {
        match instruction {
            BOQInstruction::Test => {
                Self::process_test()?;
                Ok(Vec::new())
            },
            BOQInstruction::CreateMintAuthority { bump } => {
                if accounts.len() < 4 {
                    return Err(BOQError::MalformedInput);
                }
                let action = Self::process_create_mint_authority(
                    &accounts[0],
                    &accounts[1],
                    &accounts[2],
                    bump,
                )?;
                let mut out: Vec<HostAction> = Vec::new();
                out.push(action);
                Ok(out)
            },
            BOQInstruction::InitializeMintAuthority { bump } => {
                if accounts.len() < 1 {
                    return Err(BOQError::MalformedInput);
                }
                let mut account = accounts.remove(0);
                let outcome = Self::process_initialize_mint_authority(&mut account, bump);
                let ghost accv = account;
                accounts.insert(0, account);
                proof {
                    assert(accounts@ =~= old(accounts)@.update(0, accv));
                }
                match outcome {
                    Ok(()) => Ok(Vec::new()),
                    Err(e) => Err(e),
                }
            },
            BOQInstruction::SetMintAuthority { bump, new_authority_pubkey } => {
                if accounts.len() < 4 {
                    return Err(BOQError::MalformedInput);
                }
                let action = Self::process_set_mint_authority(
                    program_id,
                    &accounts[0],
                    &accounts[1],
                    &accounts[2],
                    &accounts[3],
                    bump,
                    &new_authority_pubkey,
                )?;
                let mut out: Vec<HostAction> = Vec::new();
                out.push(action);
                Ok(out)
            },
            BOQInstruction::CreateEmployer { bump } => {
                if accounts.len() < 4 {
                    return Err(BOQError::MalformedInput);
                }
                let action = Self::process_create_employer(
                    &accounts[0],
                    &accounts[1],
                    &accounts[2],
                    bump,
                )?;
                let mut out: Vec<HostAction> = Vec::new();
                out.push(action);
                Ok(out)
            },
            BOQInstruction::InitializeEmployer {
                bump,
                token_mint,
                collection_mint,
                max_shifts,
                max_employees,
                start_slot,
                slots_per_shift,
                base_rate_per_slot,
            } => {
                if accounts.len() < 1 {
                    return Err(BOQError::MalformedInput);
                }
                let shifts = match max_shifts {
                    Some(v) => v,
                    None => 10_000,
                };
                let per_shift = match slots_per_shift {
                    Some(v) => v,
                    None => 250_000,
                };
                let start = match start_slot {
                    Some(v) => v,
                    None => current_slot,
                };
                let span = match (shifts as u64).checked_mul(per_shift) {
                    Some(v) => v,
                    None => {
                        return Err(BOQError::AssertionFailed);
                    },
                };
                if start.checked_add(span).is_none() {
                    return Err(BOQError::AssertionFailed);
                }
                let mut account = accounts.remove(0);
                let outcome = Self::process_initialize_employer(
                    &mut account,
                    bump,
                    &token_mint,
                    &collection_mint,
                    max_shifts,
                    max_employees,
                    start_slot,
                    slots_per_shift,
                    base_rate_per_slot,
                    current_slot,
                );
                let ghost accv = account;
                accounts.insert(0, account);
                proof {
                    assert(accounts@ =~= old(accounts)@.update(0, accv));
                }
                match outcome {
                    Ok(()) => Ok(Vec::new()),
                    Err(e) => Err(e),
                }
            },
            BOQInstruction::CreateEmployee { bump } => {
                if accounts.len() < 7 {
                    return Err(BOQError::MalformedInput);
                }
                let mut employer = accounts.remove(0);
                let outcome = Self::process_create_employee(
                    program_id,
                    metadata_program_id,
                    &mut employer,
                    &accounts[0],
                    &accounts[1],
                    &accounts[2],
                    &accounts[3],
                    &accounts[4],
                    bump,
                );
                let ghost accv = employer;
                accounts.insert(0, employer);
                proof {
                    assert(accounts@ =~= old(accounts)@.update(0, accv));
                }
                match outcome {
                    Ok(Some(action)) => {
                        let mut out: Vec<HostAction> = Vec::new();
                        out.push(action);
                        Ok(out)
                    },
                    Ok(None) => Ok(Vec::new()),
                    Err(e) => Err(e),
                }
            },
            BOQInstruction::InitializeEmployee { bump, nft_mint } => {
                if accounts.len() < 1 {
                    return Err(BOQError::MalformedInput);
                }
                let mut account = accounts.remove(0);
                let outcome = Self::process_initialize_employee(
                    program_id,
                    &mut account,
                    bump,
                    &nft_mint,
                );
                let ghost accv = account;
                accounts.insert(0, account);
                proof {
                    assert(accounts@ =~= old(accounts)@.update(0, accv));
                }
                match outcome {
                    Ok(()) => Ok(Vec::new()),
                    Err(e) => Err(e),
                }
            },
            BOQInstruction::CreateShift { bump } => {
                if accounts.len() < 4 {
                    return Err(BOQError::MalformedInput);
                }
                let action = Self::process_create_shift(
                    &accounts[0],
                    &accounts[1],
                    &accounts[2],
                    bump,
                )?;
                let mut out: Vec<HostAction> = Vec::new();
                out.push(action);
                Ok(out)
            },
            BOQInstruction::InitializeShift { bump, slot, owner } => {
                if accounts.len() < 1 {
                    return Err(BOQError::MalformedInput);
                }
                let mut account = accounts.remove(0);
                let outcome = Self::process_initialize_shift(&mut account, bump, slot, &owner);
                let ghost accv = account;
                accounts.insert(0, account);
                proof {
                    assert(accounts@ =~= old(accounts)@.update(0, accv));
                }
                match outcome {
                    Ok(()) => Ok(Vec::new()),
                    Err(e) => Err(e),
                }
            },
            BOQInstruction::Shift { number_of_employees } => {
                Self::shift_request(program_id, accounts, number_of_employees, current_slot)
            },
        }
    }
}

} // verus!
