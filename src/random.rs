//! Draws from the random number generators that the simulation relies on.
use vstd::prelude::*;
use rand::Rng as _;

verus! {

#[verifier::external_type_specification]
#[verifier::external_body]
pub struct ExFastRng(fastrand::Rng);

/// Relies on fastrand::Rng::i64: a number drawn from the inclusive range `lo..=hi`
/// (the call panics only on an empty range).
#[verifier::external_body]
pub(crate) fn random_i64(rng: &mut fastrand::Rng, lo: i64, hi: i64) -> (r: i64)
    requires
        lo <= hi,
    ensures
        lo <= r <= hi,
{
    rng.i64(lo..=hi)
}

/// Relies on fastrand::Rng::u32: a number drawn from `0..n` (the call panics only on an
/// empty range).
#[verifier::external_body]
pub(crate) fn random_u32(rng: &mut fastrand::Rng, n: u32) -> (r: u32)
    requires
        n > 0,
    ensures
        r < n,
{
    rng.u32(0..n)
}

/// Relies on rand::Rng::random_range with the thread-local generator of rand::rng: a number
/// drawn from `0..n` (the call panics only on an empty range).
#[verifier::external_body]
pub(crate) fn random_below(n: u32) -> (r: u32)
    requires
        n > 0,
    ensures
        r < n,
{
    rand::rng().random_range(0..n)
}

} // verus!
