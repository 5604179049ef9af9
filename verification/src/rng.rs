//! Trusted wrappers around the random-number source.
//!
//! The animation draws two kinds of randomness from `rand`'s thread-local
//! generator: a uniformly chosen column for a new or recycled drop, and a
//! fair coin that picks each glyph. Nothing is assumed of an outcome beyond
//! what `rand`'s documentation promises: a drawn column lies below the given
//! bound, and of the coin nothing at all.

use vstd::prelude::*;

verus! {

#[verifier::external_type_specification]
#[verifier::external_body]
pub struct ExThreadRng(rand::rngs::ThreadRng);

/// Relies on rand::thread_rng: returns a handle to the thread-local
/// generator; nothing is assumed of the values it will produce.
#[verifier::external_body]
pub(crate) fn fresh_rng() -> rand::rngs::ThreadRng {
    rand::thread_rng()
}

/// Relies on rand::Rng::gen_range over `0..n`: the result lies in that
/// range. The call panics only on an empty range, which the precondition
/// rules out.
#[verifier::external_body]
pub(crate) fn pick_column(rng: &mut rand::rngs::ThreadRng, n: u16) -> (c: u16)
    requires
        n > 0,
    ensures
        c < n,
{
    rand::Rng::gen_range(rng, 0..n)
}

/// Relies on rand::Rng::gen for `bool` (the `Standard` distribution): a
/// fair coin; nothing can be promised of the outcome.
#[verifier::external_body]
pub(crate) fn coin(rng: &mut rand::rngs::ThreadRng) -> bool {
    rand::Rng::gen(rng)
}

} // verus!
