//! The spawners' source of randomness, drawn through the `rand` crate.

use vstd::prelude::*;

use rand::Rng;

verus! {

/// Relies on `rand::Rng::gen_range` over a half-open `i64` range: the
/// draw lies in `lo..hi`, and the call panics only on an empty range,
/// which the precondition rules out. Nothing beyond the bounds is
/// assumed: two draws with the same bounds may differ.
#[verifier::external_body]
pub(crate) fn rand_range(lo: i64, hi: i64) -> (r: i64)
    requires
        lo < hi,
    ensures
        lo <= r < hi,
{
    rand::thread_rng().gen_range(lo..hi)
}

} // verus!
