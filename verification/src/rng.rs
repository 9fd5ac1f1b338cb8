//! The randomness source for splice-offset selection.
//!
//! A per-call generator draws each start frame; no reproducibility is
//! promised, only that every draw lies in the requested range.

use vstd::prelude::*;

verus! {

/// Draws a start frame below `bound`.
///
/// Relies on `rand::Rng::gen_range` over `rand::thread_rng()`: for a
/// nonempty range `0..bound` it returns a value of that range and panics
/// only on an empty range, which the precondition rules out. Nothing more
/// is assumed: two draws with one bound may differ.
#[verifier::external_body]
pub(crate) fn random_below(bound: u64) -> (r: u64)
    requires
        bound > 0,
    ensures
        r < bound,
{
    rand::Rng::gen_range(&mut rand::thread_rng(), 0..bound)
}

} // verus!
