//! Random numbers from the thread-local generator of `rand`.
use vstd::prelude::*;

verus! {

/// `rand::random_range(0..bound)`: a random number below `bound`. The range
/// must not be empty.
#[verifier::external_body]
pub(crate) fn random_below(bound: usize) -> (r: usize)
    requires
        bound > 0,
    ensures
        r < bound,
{
    rand::random_range(0..bound)
}

/// `rand::random::<i64>()`: a random 64-bit integer. Nothing is claimed of it.
#[verifier::external_body]
pub(crate) fn random_i64() -> i64 {
    rand::random::<i64>()
}

} // verus!
