use vstd::prelude::*;

use crate::account::{address_eq, Account, Address};
use crate::error::BOQError;
use crate::solana::{associated_token_address, create_program_address, spec_associated_token_address, spec_program_address};
use crate::state::BOQAccount;

verus! {

/// Stateless authorization predicates. Each one either passes or fails the
/// whole request with a distinct error; none has a side effect.
pub struct Check;

impl Check {
    /// Fails with `AssertionFailed` unless `condition` holds. The message is
    /// carried for the host's diagnostics only.
    pub fn that(condition: bool, message: &str) -> (r: Result<(), BOQError>)
        ensures
            r is Ok <==> condition,
            r matches Err(e) ==> e == BOQError::AssertionFailed,
    {
        let _ = message;
        if !condition {
            Err(BOQError::AssertionFailed)
        } else {
            Ok(())
        }
    }

    /// The account must carry a signature for this request.
    pub fn signer(account: &Account) -> (r: Result<(), BOQError>)
        ensures
            r is Ok <==> account.is_signer,
            r matches Err(e) ==> e == BOQError::MissingSignature,
    {
        if !account.is_signer {
            Err(BOQError::MissingSignature)
        } else {
            Ok(())
        }
    }

    /// The account handle must be writable in this request.
    pub fn writable(account: &Account) -> (r: Result<(), BOQError>)
        ensures
            r is Ok <==> account.is_writable,
            r matches Err(e) ==> e == BOQError::NotWritable,
    {
        if !account.is_writable {
            Err(BOQError::NotWritable)
        } else {
            Ok(())
        }
    }

    /// Accepts exactly the handles the host marked writable, as `writable`
    /// does. No handler demands a read-only handle; the predicate is part of
    /// the public check set all the same.
    pub fn readonly(account: &Account) -> (r: Result<(), BOQError>)
        ensures
            r is Ok <==> account.is_writable,
            r matches Err(e) ==> e == BOQError::NotWritable,
    {
        if !account.is_writable {
            Err(BOQError::NotWritable)
        } else {
            Ok(())
        }
    }

    /// The account must be both a signer and writable.
    pub fn signer_and_writable(account: &Account) -> (r: Result<(), BOQError>)
        ensures
            r is Ok <==> account.is_signer && account.is_writable,
            r matches Err(e) ==> (e == BOQError::MissingSignature <==> !account.is_signer) && (
            !account.is_signer || e == BOQError::NotWritable),
    {
        Self::signer(account)?;
        Self::writable(account)
    }

    /// The account must be a signer and pass `readonly`, which accepts
    /// exactly the writable handles.
    pub fn signer_and_readonly(account: &Account) -> (r: Result<(), BOQError>)
        ensures
            r is Ok <==> account.is_signer && account.is_writable,
            r matches Err(e) ==> (e == BOQError::MissingSignature <==> !account.is_signer) && (
            !account.is_signer || e == BOQError::NotWritable),
    {
        Self::signer(account)?;
        Self::readonly(account)
    }

    /// The account's controlling program identity must equal `owner_id`.
    pub fn owner(account: &Account, owner_id: &Address) -> (r: Result<(), BOQError>)
        ensures
            r is Ok <==> account.owner@ == owner_id@,
            r matches Err(e) ==> e == BOQError::WrongOwner,
    {
        if !address_eq(&account.owner, owner_id) {
            Err(BOQError::WrongOwner)
        } else {
            Ok(())
        }
    }

    /// The two addresses must match exactly.
    pub fn pubkey(pubkey: &Address, account_key: &Address) -> (r: Result<(), BOQError>)
        ensures
            r is Ok <==> pubkey@ == account_key@,
            r matches Err(e) ==> e == BOQError::AddressMismatch,
    {
        if !address_eq(pubkey, account_key) {
            Err(BOQError::AddressMismatch)
        } else {
            Ok(())
        }
    }

    /// The account's address must equal `account_key`.
    pub fn account(account: &Account, account_key: &Address) -> (r: Result<(), BOQError>)
        ensures
            r is Ok <==> account.key@ == account_key@,
            r matches Err(e) ==> e == BOQError::AddressMismatch,
    {
        if !address_eq(&account.key, account_key) {
            Err(BOQError::AddressMismatch)
        } else {
            Ok(())
        }
    }

    /// The account must sit at the address derived from `seeds` under
    /// `program_id`. Any bump whose derivation succeeds is accepted; the
    /// check never searches for a canonical bump.
    pub fn pda(program_id: &Address, pda: &Account, seeds: &Vec<Vec<u8>>) -> (r: Result<
        (),
        BOQError,
    >)
        ensures
            r is Ok <==> spec_program_address(seeds.deep_view(), program_id@) == Some(pda.key@),
            r matches Err(e) ==> e == BOQError::AddressMismatch,
    {
        match create_program_address(seeds, program_id) {
            Some(derived) => Self::account(pda, &derived),
            None => Err(BOQError::AddressMismatch),
        }
    }

    /// The account must sit at the canonical associated token address for
    /// `(wallet, token_mint)`.
    pub fn ata(ata: &Account, token_mint: &Address, wallet: &Address) -> (r: Result<(), BOQError>)
        ensures
            r is Ok <==> ata.key@ == spec_associated_token_address(wallet@, token_mint@),
            r matches Err(e) ==> e == BOQError::AddressMismatch,
    {
        let derived = associated_token_address(wallet, token_mint);
        Self::account(ata, &derived)
    }

    /// The record must be in its typed state.
    pub fn initialized<T: BOQAccount>(record: &T, account: &Account) -> (r: Result<(), BOQError>)
        ensures
            r is Ok <==> record.spec_initialized(),
            r matches Err(e) ==> e == BOQError::NotInitialized,
    {
        let _ = account;
        if !record.is_initialized() {
            Err(BOQError::NotInitialized)
        } else {
            Ok(())
        }
    }

    /// The record must still be untyped.
    pub fn uninitialized<T: BOQAccount>(record: &T, account: &Account) -> (r: Result<(), BOQError>)
        ensures
            r is Ok <==> !record.spec_initialized(),
            r matches Err(e) ==> e == BOQError::AlreadyInitialized,
    {
        let _ = account;
        if record.is_initialized() {
            Err(BOQError::AlreadyInitialized)
        } else {
            Ok(())
        }
    }
}

} // verus!
