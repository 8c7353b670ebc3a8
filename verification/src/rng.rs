//! The library's one source of randomness, for seeding a grid.

use vstd::prelude::*;

verus! {

/// Relies on rand's `RngExt::random_range` on the thread-local generator
/// (`rand::rng()`): the result is drawn uniformly from `0..buckets`, so it
/// is always below `buckets`; the range is nonempty, so the call does not
/// panic.
#[verifier::external_body]
pub(crate) fn draw_bucket(buckets: u32) -> (r: u32)
    requires
        buckets > 0,
    ensures
        r < buckets,
{
    rand::RngExt::random_range(&mut rand::rng(), 0..buckets)
}

} // verus!
