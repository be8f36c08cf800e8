//! The single entry point for randomness.

use rand::Rng;
use vstd::prelude::*;

verus! {

/// Draws an integer from `[0, bound)`.
///
/// Trusted: the body calls `rand::Rng::gen_range(0, bound)` on the generator
/// that `rand::thread_rng()` hands out. Verus does not read it. The contract
/// claims only the range that `gen_range` documents (`low` inclusive, `high`
/// exclusive); `gen_range` panics when `low >= high`, which `requires` rules
/// out. Which value of the range comes back is left open, so two calls with
/// the same bound may differ. `thread_rng()` aborts when the operating system
/// offers no entropy source; no input of this function can cause that.
#[verifier::external_body]
pub(crate) fn random_below(bound: i32) -> (n: i32)
    requires
        0 < bound,
    ensures
        0 <= n < bound,
{
    rand::thread_rng().gen_range(0, bound)
}

} // verus!
