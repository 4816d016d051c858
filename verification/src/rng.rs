//! Trusted boundary to the `rand` crate.
//!
//! The tracer's only source of randomness is a caller-supplied
//! `rand::rngs::SmallRng` handle, threaded explicitly through sampling,
//! material scattering and scene generation, so a fixed seed reproduces a
//! render. Nothing is assumed of a draw beyond its range.

use vstd::prelude::*;
use rand::Rng;

verus! {

#[verifier::external_type_specification]
#[verifier::external_body]
pub struct ExSmallRng(rand::rngs::SmallRng);

/// Relies on `rand::Rng::gen_range` over a half-open `i64` range: the draw
/// lies in `[lo, hi)`, and the call panics only on an empty range, which
/// the precondition rules out.
#[verifier::external_body]
pub(crate) fn gen_range_i64(rng: &mut rand::rngs::SmallRng, lo: i64, hi: i64) -> (r: i64)
    requires
        lo < hi,
    ensures
        lo <= r < hi,
{
    rng.gen_range(lo..hi)
}

} // verus!
