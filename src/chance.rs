//! Uniform random choices.

use vstd::prelude::*;
use rand::Rng;

verus! {

/// Relies on rand's `Rng::random_range` over `0..n` with the thread-local
/// generator: a value in the range, which must not be empty.
#[verifier::external_body]
pub(crate) fn random_below(n: usize) -> (r: usize)
    requires
        n > 0,
    ensures
        r < n,
{
    rand::rng().random_range(0..n)
}

/// A position drawn uniformly from a list of `len` items, or `None` for an
/// empty list.
pub fn choose_index(len: usize) -> (r: Option<usize>)
    ensures
        len == 0 ==> r is None,
        len > 0 ==> (r matches Some(i) && i < len),
{
    if len == 0 {
        None
    } else {
        Some(random_below(len))
    }
}

} // verus!
