//! Trusted boundary to the random number generator.

use vstd::prelude::*;

verus! {

/// Relies on rand's `Rng::gen_range` over `lo..hi` with `thread_rng`: a
/// draw from the half-open range, which panics only on an empty range and
/// the precondition rules that out.  The ensures states all that holds of
/// every outcome; the value itself depends on the generator's state.
#[verifier::external_body]
pub(crate) fn sample_uniform(lo: i64, hi: i64) -> (r: i64)
    requires
        lo < hi,
    ensures
        lo <= r < hi,
{
    rand::Rng::gen_range(&mut rand::thread_rng(), lo..hi)
}

} // verus!
