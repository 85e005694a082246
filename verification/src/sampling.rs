//! The optimizer's integer randomness, drawn from an explicit seedable
//! generator of the `rand` crate so that callers can reproduce runs. Each
//! function states only what holds of every outcome of a draw; the verified
//! logic in `genetic` is proved for all such values.

use vstd::prelude::*;

verus! {

/// The seedable pseudo-random generator that every stochastic operation of
/// the optimizer draws from; opaque here, constructed by the caller.
#[verifier::external_type_specification]
#[verifier::external_body]
pub struct ExStdRng(rand::rngs::StdRng);

/// Relies on `rand::Rng::gen_range` over `0..n`: a uniform draw from the
/// range, which panics only when the range is empty.
#[verifier::external_body]
pub(crate) fn sample_usize_below(rng: &mut rand::rngs::StdRng, n: usize) -> (r: usize)
    requires
        1 <= n,
    ensures
        r < n,
{
    rand::Rng::gen_range(rng, 0..n)
}

/// Relies on `rand::Rng::gen_range` over `lo..=hi`: a uniform draw from the
/// inclusive range, which panics only when the range is empty.
#[verifier::external_body]
pub(crate) fn sample_i32_between(rng: &mut rand::rngs::StdRng, lo: i32, hi: i32) -> (r: i32)
    requires
        lo <= hi,
    ensures
        lo <= r <= hi,
{
    rand::Rng::gen_range(rng, lo..=hi)
}

} // verus!
