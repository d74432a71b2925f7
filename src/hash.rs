//! The hash behind selectors.
use vstd::prelude::*;

verus! {

/// Keccak-256 digest of the UTF-8 encoding of a text.
pub uninterp spec fn keccak_of(s: Seq<char>) -> Seq<u8>;

/// Relies on `alloy_primitives::keccak256`: the 32-byte Keccak-256 digest of
/// the text's UTF-8 bytes, a function of the text alone.
#[verifier::external_body]
pub(crate) fn keccak_text(s: &str) -> (r: [u8; 32])
    ensures
        r@ == keccak_of(s@),
{
    alloy_primitives::keccak256(s.as_bytes()).0
}

} // verus!
