use vstd::prelude::*;

use crate::account::Address;
use crate::error::BOQError;
use spl_token::solana_program::program_pack::Pack;
use vstd::bytes::spec_u64_from_le_bytes;

verus! {

// ---------------------------------------------------------------------------
// Program-derived addresses
// ---------------------------------------------------------------------------

/// The deterministic program-derived address of `seeds` under `program_id`,
/// or `None` where the derivation fails (the hash lands on the curve, a seed
/// is longer than 32 bytes, or there are more than 16 seeds). The derivation
/// is a pure hash of its arguments.
pub uninterp spec fn spec_program_address(seeds: Seq<Seq<u8>>, program_id: Seq<u8>) -> Option<
    Seq<u8>,
>;

/// Relies on solana_program's `Pubkey::create_program_address`: a
/// deterministic hash of the seeds and the program identity that fails
/// exactly where `spec_program_address` is `None`.
#[verifier::external_body]
pub(crate) fn create_program_address(seeds: &Vec<Vec<u8>>, program_id: &Address) -> (r: Option<
    Address,
>)
    ensures
        (match r {
            Some(a) => spec_program_address(seeds.deep_view(), program_id@) == Some(a@),
            None => spec_program_address(seeds.deep_view(), program_id@) is None,
        }),
{
    let seed_refs: Vec<&[u8]> = seeds.iter().map(|s| s.as_slice()).collect();
    let pk = solana_program::pubkey::Pubkey::new_from_array(*program_id);
    match solana_program::pubkey::Pubkey::create_program_address(&seed_refs, &pk) {
        Ok(p) => Some(p.to_bytes()),
        Err(_) => None,
    }
}

// ---------------------------------------------------------------------------
// Associated token addresses
// ---------------------------------------------------------------------------

/// The canonical deterministic address holding tokens of `mint` for `wallet`.
pub uninterp spec fn spec_associated_token_address(wallet: Seq<u8>, mint: Seq<u8>) -> Seq<u8>;

/// Relies on spl_associated_token_account's `get_associated_token_address`:
/// deterministic in the wallet and mint addresses. Its internal bump search
/// is relied on to find an address.
#[verifier::external_body]
pub(crate) fn associated_token_address(wallet: &Address, mint: &Address) -> (r: Address)
    ensures
        r@ == spec_associated_token_address(wallet@, mint@),
{
    let w = spl_token::solana_program::pubkey::Pubkey::new_from_array(*wallet);
    let m = spl_token::solana_program::pubkey::Pubkey::new_from_array(*mint);
    spl_associated_token_account::get_associated_token_address(&w, &m).to_bytes()
}

// ---------------------------------------------------------------------------
// Fungible-token holding accounts
// ---------------------------------------------------------------------------

/// A fungible-token holding account, reduced to the facts the engine reads:
/// the token type it holds, the wallet that holds it, and the amount held.
pub struct TokenAccount {
    pub mint: Address,
    pub owner: Address,
    pub amount: u64,
}

/// Whether a 4-byte optional-field tag is well formed.
pub open spec fn spec_coption_tag_valid(t: Seq<u8>) -> bool {
    t == seq![0u8, 0u8, 0u8, 0u8] || t == seq![1u8, 0u8, 0u8, 0u8]
}

/// Whether `d` unpacks as an initialized token holding account: exactly 165
/// bytes, a state byte of 1 (initialized) or 2 (frozen) at offset 108, and
/// well-formed optional-field tags at offsets 72, 109 and 129.
pub open spec fn spec_token_account_valid(d: Seq<u8>) -> bool {
    &&& d.len() == 165
    &&& (d[108] == 1 || d[108] == 2)
    &&& spec_coption_tag_valid(d.subrange(72, 76))
    &&& spec_coption_tag_valid(d.subrange(109, 113))
    &&& spec_coption_tag_valid(d.subrange(129, 133))
}

/// The mint a token holding account is for: its first 32 bytes.
pub open spec fn spec_token_mint(d: Seq<u8>) -> Seq<u8> {
    d.subrange(0, 32)
}

/// The wallet that holds a token holding account: bytes 32 to 64.
pub open spec fn spec_token_owner(d: Seq<u8>) -> Seq<u8> {
    d.subrange(32, 64)
}

/// The amount held: bytes 64 to 72, little-endian.
pub open spec fn spec_token_amount(d: Seq<u8>) -> u64 {
    spec_u64_from_le_bytes(d.subrange(64, 72))
}

/// Relies on spl_token's `Account::unpack`: a fixed 165-byte layout holding
/// the mint at bytes 0..32, the holder at 32..64, the amount little-endian at
/// 64..72 and the state byte at 108, failing exactly where
/// `spec_token_account_valid` does not hold.
#[verifier::external_body]
pub(crate) fn unpack_token_account(d: &[u8]) -> (r: Result<TokenAccount, BOQError>)
    ensures
        r is Ok <==> spec_token_account_valid(d@),
        r matches Ok(t) ==> {
            &&& t.mint@ == spec_token_mint(d@)
            &&& t.owner@ == spec_token_owner(d@)
            &&& t.amount == spec_token_amount(d@)
        },
        r matches Err(e) ==> e == BOQError::MalformedInput,
{
    match spl_token::state::Account::unpack(d) {
        Ok(a) => Ok(
            TokenAccount { mint: a.mint.to_bytes(), owner: a.owner.to_bytes(), amount: a.amount },
        ),
        Err(_) => Err(BOQError::MalformedInput),
    }
}

// ---------------------------------------------------------------------------
// Token-metadata registry records
// ---------------------------------------------------------------------------

/// A collection assertion inside a metadata record: the collection's mint and
/// whether the registry has verified the membership.
pub struct CollectionFacts {
    pub key: Address,
    pub verified: bool,
}

/// A metadata-registry record, reduced to the facts the engine reads: the
/// token mint it describes and its collection assertion, where present.
pub struct MetadataFacts {
    pub mint: Address,
    pub collection: Option<CollectionFacts>,
}

/// What the token-metadata registry's record bytes decode to — the described
/// mint and the optional collection assertion — or `None` where the bytes do
/// not decode. The decoding is a pure function of the bytes.
pub uninterp spec fn spec_metadata(d: Seq<u8>) -> Option<(Seq<u8>, Option<(Seq<u8>, bool)>)>;

/// The model of `MetadataFacts` inside `spec_metadata`'s result.
pub open spec fn spec_metadata_facts(m: MetadataFacts) -> (Seq<u8>, Option<(Seq<u8>, bool)>) {
    (
        m.mint@,
        match m.collection {
            Some(c) => Some((c.key@, c.verified)),
            None => None,
        },
    )
}

/// Relies on mpl_token_metadata's `Metadata::from_bytes`: a deterministic
/// decoding of the registry's record, read here only for the described mint
/// and the collection assertion.
#[verifier::external_body]
pub(crate) fn parse_metadata(d: &[u8]) -> (r: Result<MetadataFacts, BOQError>)
    ensures
        r is Ok <==> spec_metadata(d@) is Some,
        r matches Ok(m) ==> spec_metadata(d@) == Some(spec_metadata_facts(m)),
        r matches Err(e) ==> e == BOQError::MalformedInput,
{
    match mpl_token_metadata::accounts::Metadata::from_bytes(d) {
        Ok(m) => Ok(
            MetadataFacts {
                mint: m.mint.to_bytes(),
                collection: match m.collection {
                    Some(c) => Some(CollectionFacts { key: c.key.to_bytes(), verified: c.verified }),
                    None => None,
                },
            },
        ),
        Err(_) => Err(BOQError::MalformedInput),
    }
}

} // verus!
