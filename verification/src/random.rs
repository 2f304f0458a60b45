use vstd::prelude::*;
use rand::RngExt;

verus! {

/// A random index below `n`, drawn with rand's `RngExt::random_range(0..n)`
/// on the thread-local generator (`rand::rng()`). rand documents the result
/// as lying in the range; it panics on an empty range, which `n > 0` rules
/// out. Nothing is claimed of which index comes out.
#[verifier::external_body]
pub(crate) fn random_index(n: usize) -> (r: usize)
    requires
        0 < n,
    ensures
        r < n,
{
    rand::rng().random_range(0..n)
}

} // verus!
