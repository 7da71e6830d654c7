//! The wall clock.

use vstd::prelude::*;

verus! {

/// `std::time::Instant`, a moment in time. Nothing is known of it.
#[verifier::external_type_specification]
#[verifier::external_body]
pub struct ExInstant(std::time::Instant);

/// `Instant::now`: the present moment. Nothing is known of it.
#[verifier::external_body]
pub(crate) fn now() -> std::time::Instant {
    std::time::Instant::now()
}

/// `Instant::elapsed`, in milliseconds: the time passed since a moment.
/// Nothing is known of it.
#[verifier::external_body]
pub(crate) fn elapsed_ms(since: &std::time::Instant) -> u128 {
    since.elapsed().as_millis()
}

} // verus!
