//! The monotonic clock, for the components that fade and wait.
use std::time::Instant;
use vstd::prelude::*;

verus! {

#[verifier::external_type_specification]
#[verifier::external_body]
pub struct ExInstant(Instant);

/// `Instant::now()`: the present moment. Nothing is claimed of it.
#[verifier::external_body]
pub(crate) fn now() -> (r: Instant) {
    Instant::now()
}

/// `at.elapsed().as_millis()`: the whole milliseconds passed since `at`.
/// It depends on the clock, so nothing is claimed of it.
#[verifier::external_body]
pub(crate) fn elapsed_millis(at: Instant) -> (r: u128) {
    at.elapsed().as_millis()
}

} // verus!
