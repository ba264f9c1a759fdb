//! The source of randomness.

use vstd::prelude::*;

verus! {

/// Draws a `usize` from `rand::random`, which samples the generator that
/// `rand` keeps for each thread. Nothing is claimed of the value drawn: any
/// two calls may return any two values. The generator is seeded from the
/// operating system when a thread first draws from it, and `rand` panics if
/// the system has no randomness to give.
#[verifier::external_body]
pub(crate) fn random_usize() -> usize {
    rand::random::<usize>()
}

} // verus!
