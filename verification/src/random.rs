//! The random draws the trainer makes, each a single call into `rand` on
//! the thread-local generator. Nothing is promised of a draw beyond what
//! holds of every outcome, and nothing here is proved: the contracts say
//! what `rand` documents. The generator is seeded by the operating system
//! on first use.

use vstd::prelude::*;
use rand::seq::SliceRandom;
use rand::Rng;
use crate::order::{is_permutation, rearranged};

verus! {

/// `SliceRandom::shuffle`: the vector afterwards holds the elements it held
/// before, rearranged by some permutation of their positions.
#[verifier::external_body]
pub(crate) fn shuffle<T>(v: &mut Vec<T>)
    ensures
        exists|p: Seq<usize>|
            is_permutation(p, old(v)@.len()) && final(v)@ == #[trigger] rearranged(old(v)@, p),
{
    v.shuffle(&mut rand::rng());
}

/// `Rng::random_range` on a half-open range of `usize`: some value of the
/// range. The range must not be empty.
#[verifier::external_body]
pub(crate) fn random_in(low: usize, high: usize) -> (r: usize)
    requires
        low < high,
    ensures
        low <= r < high,
{
    rand::rng().random_range(low..high)
}

/// `Rng::random_ratio`: `true` with probability `numerator / denominator`,
/// so always `true` when the two are equal and never when the numerator is
/// zero.
#[verifier::external_body]
pub(crate) fn chance(numerator: u32, denominator: u32) -> (r: bool)
    requires
        0 < denominator,
        numerator <= denominator,
    ensures
        numerator == denominator ==> r,
        numerator == 0 ==> !r,
{
    rand::rng().random_ratio(numerator, denominator)
}

} // verus!
