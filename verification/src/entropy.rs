//! The library's one source of randomness.

use vstd::prelude::*;

verus! {

/// Relies on `rand::random_range` over `lo..hi`: the thread-local
/// generator returns a value inside the half-open range, and panics only
/// when the range is empty, which the precondition rules out. The value
/// is random; nothing more is promised of it.
#[verifier::external_body]
pub(crate) fn random_coord(lo: i64, hi: i64) -> (r: i64)
    requires
        lo < hi,
    ensures
        lo <= r < hi,
{
    rand::random_range(lo..hi)
}

} // verus!
