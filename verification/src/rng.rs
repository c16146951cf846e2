//! The single point where randomness enters the library.

use vstd::prelude::*;

use rand::Rng;

verus! {

/// Draw a uniform random value below `n`.
///
/// Relies on `rand::Rng::gen_range` over the range `0..n` on the thread-local
/// generator: the result always lies in the half-open range, and the call
/// panics only on an empty range, which `requires` rules out. Nothing more is
/// promised of the value: callers must hold for every outcome.
#[verifier::external_body]
pub(crate) fn rand_below(n: u64) -> (r: u64)
    requires
        1 <= n,
    ensures
        r < n,
{
    rand::thread_rng().gen_range(0..n)
}

} // verus!
