//! Randomness for the animation, drawn through two small trusted
//! wrappers around the `rand` crate. Every contract here states only
//! what holds of every outcome; nothing about a draw is reproducible.

use vstd::prelude::*;

verus! {

/// Relies on rand::Rng::gen_range over `0..n`: it panics only on an
/// empty range, which `n >= 1` rules out, and returns a value of the
/// range.
#[verifier::external_body]
pub(crate) fn rand_index(n: usize) -> (r: usize)
    requires
        n >= 1,
    ensures
        r < n,
{
    rand::Rng::gen_range(&mut rand::thread_rng(), 0..n)
}

/// Relies on rand::seq::SliceRandom::shuffle: an in-place Fisher-Yates
/// pass that only swaps elements, so the slice afterwards holds the
/// same elements in some order.
#[verifier::external_body]
pub(crate) fn shuffle_columns(v: &mut Vec<u16>)
    ensures
        final(v)@.len() == old(v)@.len(),
        final(v)@.to_multiset() == old(v)@.to_multiset(),
{
    rand::seq::SliceRandom::shuffle(v.as_mut_slice(), &mut rand::thread_rng())
}

/// A uniform draw from `[0, PPM_ONE)`: rolling `rand_ppm() < p` is a
/// Bernoulli trial with probability `p` parts per million.
pub(crate) fn rand_ppm() -> (r: u32)
    ensures
        r < crate::config::PPM_ONE,
{
    let v = rand_index(1_000_000);
    v as u32
}

/// A uniform draw from the inclusive range `[lo, hi]`.
pub(crate) fn rand_range_inclusive(lo: usize, hi: usize) -> (r: usize)
    requires
        lo <= hi,
        hi < usize::MAX,
    ensures
        lo <= r <= hi,
{
    lo + rand_index(hi - lo + 1)
}

} // verus!
