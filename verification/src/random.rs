//! The random draws that mob and projectile logic makes.  Each draw is a
//! call into `rand`; what the draw decides is done by verified functions
//! that take the drawn value as an argument.
use vstd::prelude::*;

verus! {

/// A uniformly drawn value below `bound`, from `rand::random_range(0..bound)`.
/// The crate documents the result as lying in the half-open range, and the
/// call as panicking on an empty range; nothing more is claimed of it.
#[verifier::external_body]
pub(crate) fn random_below(bound: u32) -> (r: u32)
    requires
        bound > 0,
    ensures
        r < bound,
{
    rand::random_range(0..bound)
}

/// A uniformly drawn `i32`, from `rand::random::<i32>()`.  Any value may
/// come back.
#[verifier::external_body]
pub(crate) fn random_i32() -> (r: i32) {
    rand::random::<i32>()
}

/// A uniformly drawn `u16`, from `rand::random::<u16>()`.  Any value may
/// come back.
#[verifier::external_body]
pub(crate) fn random_u16() -> (r: u16) {
    rand::random::<u16>()
}

} // verus!
