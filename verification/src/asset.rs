//! Asset identifiers.
//!
//! An asset is identified by the address of its mint, an `anchor_lang`
//! [`Pubkey`]. The pool never looks inside a key; it only asks whether two
//! keys are the same.

use anchor_lang::prelude::Pubkey;
use vstd::prelude::*;

verus! {

/// The 32-byte address type of `anchor_lang`, carried through as an opaque value.
#[verifier::external_type_specification]
#[verifier::external_body]
pub struct ExPubkey(anchor_lang::prelude::Pubkey);

/// Identifier of a traded asset.
pub type AssetId = Pubkey;

/// Calls `Pubkey`'s `==`. The key type is a wrapper around 32 bytes with a
/// derived `PartialEq`, so the comparison holds exactly when both keys are
/// the same value; that is what the contract claims, without proof.
#[verifier::external_body]
pub(crate) fn same_asset(a: &AssetId, b: &AssetId) -> (same: bool)
    ensures
        same == (*a == *b),
{
    a == b
}

} // verus!
