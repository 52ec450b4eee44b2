//! Wrappers around the host collaborators: the block clock and Unicode
//! case folding. Each wrapper holds exactly one outside call.

use vstd::prelude::*;

verus! {

/// The lowercase form of a sequence of characters, as `str::to_lowercase`
/// computes it. The result depends on the characters alone.
pub uninterp spec fn lower_of(s: Seq<char>) -> Seq<char>;

/// Relies on near_sdk::env::block_timestamp: the current block time in
/// nanoseconds, supplied by the host environment. Nothing can be promised
/// of its value.
#[verifier::external_body]
pub(crate) fn block_timestamp() -> u64 {
    near_sdk::env::block_timestamp()
}

/// Relies on str::to_lowercase: the Unicode lowercase mapping of the
/// input, a function of the characters alone.
#[verifier::external_body]
pub(crate) fn lowercase(s: &str) -> (r: String)
    ensures
        r@ == lower_of(s@),
{
    s.to_lowercase()
}

} // verus!
