//! Record addressing: where the record of a given owner and content lives.
//!
//! An address is derived from three seeds: a fixed namespace tag, the owner's
//! identity and the content. The derivation itself (a digest of the seeds, of
//! the program id and of a bump byte chosen so that the result is no valid
//! curve point) is done by `anchor_lang`; what is verified here is which
//! seeds are handed to it and what becomes of its answer.

use vstd::prelude::*;
use anchor_lang::prelude::Pubkey;
use crate::error::ErrorCode;
use crate::keys::{Address, Identity};

verus! {

/// The namespace tag that starts every seed list: the bytes of `wish`.
pub const SEED_TAG: [u8; 4] = [119, 105, 115, 104];

/// The longest single seed that the derivation accepts, in bytes.
pub const MAX_SEED_LEN: usize = 32;

/// The id of the program under which all addresses are derived: the bytes of
/// `HZSqkqsgtJkFLwgyFMQHHbFEsU9jPdGZgBTpbrVRwJ8U` in base 58.
pub const PROGRAM_ID: [u8; 32] = [
    246, 10, 203, 119, 145, 70, 100, 212, 130, 104, 194, 131, 217, 187, 112, 171,
    23, 113, 189, 17, 157, 3, 133, 18, 124, 212, 121, 58, 102, 47, 134, 197,
];

/// What `Pubkey::try_find_program_address` returns for a list of seeds and a
/// program id: the address and its bump byte, or `None` where a seed is too
/// long, the seeds are too many, or no bump byte yields an address.
pub uninterp spec fn program_address(seeds: Seq<Seq<u8>>, program_id: Seq<u8>) -> Option<(Seq<u8>, u8)>;

/// The seed list of a record: tag, owner, content, in this order.
pub open spec fn seed_list(tag: Seq<u8>, owner: Seq<u8>, content: Seq<u8>) -> Seq<Seq<u8>> {
    seq![tag, owner, content]
}

/// The address of the record that `owner` holds for `content` under `tag`,
/// with its bump byte, or `None` where none can be derived: where the tag or
/// the content is longer than a seed may be, or the derivation finds nothing.
pub open spec fn find_spec(tag: Seq<u8>, owner: Seq<u8>, content: Seq<u8>) -> Option<(Seq<u8>, u8)> {
    if tag.len() > MAX_SEED_LEN || content.len() > MAX_SEED_LEN {
        None
    } else {
        program_address(seed_list(tag, owner, content), PROGRAM_ID@)
    }
}

/// The address of the record that `owner` holds for `content` under `tag`,
/// or `None` where none can be derived.
pub open spec fn derive_spec(tag: Seq<u8>, owner: Seq<u8>, content: Seq<u8>) -> Option<Seq<u8>> {
    match find_spec(tag, owner, content) {
        Some(found) => Some(found.0),
        None => None,
    }
}

/// Whether `res` is what deriving from these seeds has to give: the address
/// that `derive_spec` names, or `AddressDerivationError` where it names none.
pub open spec fn derives(
    tag: Seq<u8>,
    owner: Seq<u8>,
    content: Seq<u8>,
    res: Result<Address, ErrorCode>,
) -> bool {
    match derive_spec(tag, owner, content) {
        Some(a) => res matches Ok(address) && address@ == a,
        None => res == Err::<Address, ErrorCode>(ErrorCode::AddressDerivationError),
    }
}

/// Calls `Pubkey::try_find_program_address` of `anchor_lang` on the three
/// seeds and the program id. Trusted: the result is the one that
/// `program_address` names for these arguments. Nothing else is claimed of it.
#[verifier::external_body]
fn find_program_address(tag: &[u8], owner: &[u8; 32], content: &[u8], program_id: &[u8; 32]) -> (found: Option<([u8; 32], u8)>)
    ensures
        match program_address(seed_list(tag@, owner@, content@), program_id@) {
            Some(named) => found matches Some(f) && f.0@ == named.0 && f.1 == named.1,
            None => found is None,
        },
{
    let id = Pubkey::new_from_array(*program_id);
    match Pubkey::try_find_program_address(&[tag, owner.as_slice(), content], &id) {
        Some((address, bump)) => Some((address.to_bytes(), bump)),
        None => None,
    }
}

/// Finds the address of the record that `owner` holds for `content` in the
/// namespace `namespace_tag`, and the bump byte that the address was found
/// with.
///
/// Fails with `AddressDerivationError` exactly where the tag or the content
/// is longer than `MAX_SEED_LEN` bytes or the derivation finds no address.
pub fn find_address(namespace_tag: &[u8], owner: &Identity, content: &[u8]) -> (res: Result<
    (Address, u8),
    ErrorCode,
>)
    ensures
        match find_spec(namespace_tag@, owner@, content@) {
            Some(named) => res matches Ok(found) && found.0@ == named.0 && found.1 == named.1,
            None => res == Err::<(Address, u8), ErrorCode>(ErrorCode::AddressDerivationError),
        },
{
    if namespace_tag.len() > MAX_SEED_LEN || content.len() > MAX_SEED_LEN {
        return Err(ErrorCode::AddressDerivationError);
    }
    match find_program_address(namespace_tag, &owner.bytes, content, &PROGRAM_ID) {
        Some(found) => Ok((Address::new(found.0), found.1)),
        None => Err(ErrorCode::AddressDerivationError),
    }
}

/// Derives the address of the record that `owner` holds for `content` in the
/// namespace `namespace_tag`.
///
/// Fails with `AddressDerivationError` exactly where the tag or the content
/// is longer than `MAX_SEED_LEN` bytes or the derivation finds no address.
pub fn derive_address(namespace_tag: &[u8], owner: &Identity, content: &[u8]) -> (res: Result<
    Address,
    ErrorCode,
>)
    ensures
        derives(namespace_tag@, owner@, content@, res),
{
    match find_address(namespace_tag, owner, content) {
        Ok(found) => Ok(found.0),
        Err(e) => Err(e),
    }
}

} // verus!
