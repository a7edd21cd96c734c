//! Random draws for spike sizes.
use vstd::prelude::*;

verus! {

/// Relies on rand::random_range (thread-local generator): for a non-empty
/// half-open range `lo..hi` it returns a value `lo <= r < hi`; an empty range
/// panics, so it is excluded.
#[verifier::external_body]
pub(crate) fn draw_in_range(lo: i64, hi: i64) -> (r: i64)
    requires
        lo < hi,
    ensures
        lo <= r < hi,
{
    rand::random_range(lo..hi)
}

} // verus!
