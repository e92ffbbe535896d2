//! The two nondeterministic sources the engine draws on: the process random
//! number generator and freshly generated identifiers.
use vstd::prelude::*;

verus! {

/// Relies on rand::random_range over `0..bound`: the sample lies in the
/// half-open range, which is non-empty because `bound > 0`.
#[verifier::external_body]
pub(crate) fn rand_below(bound: usize) -> (r: usize)
    requires
        bound > 0,
    ensures
        r < bound,
{
    rand::random_range(0..bound)
}

/// Relies on uuid::Uuid::new_v4 for a freshly drawn 128-bit identifier;
/// nothing is assumed of the value itself.
#[verifier::external_body]
pub(crate) fn fresh_id() -> (r: u128) {
    uuid::Uuid::new_v4().as_u128()
}

} // verus!
