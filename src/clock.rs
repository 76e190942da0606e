//! Monotonic time, as whole milliseconds since a recorded instant.
use vstd::prelude::*;
use std::time::Instant;

verus! {

/// `std::time::Instant`, carried through opaquely.
#[verifier::external_type_specification]
#[verifier::external_body]
pub struct ExInstant(std::time::Instant);

/// Relies on std::time::Instant::now: a reading of the monotonic clock; nothing is
/// promised of its value.
pub assume_specification[ std::time::Instant::now ]() -> std::time::Instant;

/// Relies on std::time::Instant::elapsed: the whole milliseconds since `origin`.
/// The value depends on the clock, so nothing is promised of it.
#[verifier::external_body]
pub(crate) fn millis_since(origin: &Instant) -> (r: u64) {
    origin.elapsed().as_millis() as u64
}

} // verus!
