//! The random number generator that the generators draw from, and the draws
//! they make of it.

use vstd::prelude::*;
use rand::Rng;
use rand_pcg::Lcg128Xsl64;

verus! {

#[verifier::external_type_specification]
#[verifier::external_body]
pub struct ExLcg128Xsl64(Lcg128Xsl64);

/// `Rng::gen_ratio`: true with the chance `numerator / denominator` (the
/// same draw as `gen_bool` with that quotient); nothing is promised of the
/// outcome. It panics when `denominator` is zero or below `numerator`.
#[verifier::external_body]
pub(crate) fn gen_ratio(rng: &mut Lcg128Xsl64, numerator: u32, denominator: u32) -> (r: bool)
    requires
        0 < denominator,
        numerator <= denominator,
{
    rng.gen_ratio(numerator, denominator)
}

/// `Rng::gen_range` over `lo..=hi` on `usize`: a value from `lo` to `hi`
/// (the same draw as `lo..hi + 1`). It panics when the range is empty.
#[verifier::external_body]
pub(crate) fn gen_range_usize(rng: &mut Lcg128Xsl64, lo: usize, hi: usize) -> (r: usize)
    requires
        lo <= hi,
    ensures
        lo <= r <= hi,
{
    rng.gen_range(lo..=hi)
}

/// `Rng::gen_range` over `lo..=hi` on `u32`: a value from `lo` to `hi`.
#[verifier::external_body]
pub(crate) fn gen_range_u32(rng: &mut Lcg128Xsl64, lo: u32, hi: u32) -> (r: u32)
    requires
        lo <= hi,
    ensures
        lo <= r <= hi,
{
    rng.gen_range(lo..=hi)
}

/// `Rng::gen_range` over `lo..=hi` on `i32`: a value from `lo` to `hi`.
#[verifier::external_body]
pub(crate) fn gen_range_i32(rng: &mut Lcg128Xsl64, lo: i32, hi: i32) -> (r: i32)
    requires
        lo <= hi,
    ensures
        lo <= r <= hi,
{
    rng.gen_range(lo..=hi)
}

} // verus!
