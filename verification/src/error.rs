use vstd::prelude::*;

verus! {

/// The error taxonomy of the program. Every failing check aborts the whole
/// enclosing request with exactly one of these; the host then discards all
/// attempted mutations, so a caller observes a single error and no partial
/// effect.
#[derive(Clone, Copy, Debug, PartialEq, Eq, Structural)]
pub enum BOQError {
    /// A generic invariant violation (inactive accrual period, unverified
    /// collection membership, arithmetic that would overflow a counter).
    AssertionFailed,
    /// A required signer capability is absent.
    MissingSignature,
    /// A required mutable account handle is read-only.
    NotWritable,
    /// An account's controlling program identity does not match.
    WrongOwner,
    /// A derived or expected address does not match the supplied address.
    AddressMismatch,
    /// A record was already in its typed state.
    AlreadyInitialized,
    /// A record was not yet in its typed state.
    NotInitialized,
    /// An undecodable payload: a record or token account whose bytes do not
    /// decode, or a request that carries too few accounts.
    MalformedInput,
}

} // verus!
