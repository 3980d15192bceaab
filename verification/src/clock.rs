//! Trusted boundary to the process clock, for measured durations.
use vstd::prelude::*;

verus! {

#[verifier::external_type_specification]
#[verifier::external_body]
pub struct ExInstant(std::time::Instant);

/// Relies on `std::time::Instant::now`: an opaque reading of the
/// monotonic clock.  Nothing is promised of it.
#[verifier::external_body]
pub fn instant_now() -> (r: std::time::Instant) {
    std::time::Instant::now()
}

/// Relies on `Instant::elapsed` and `Duration::as_millis`: whole
/// milliseconds since `start`, truncated into a `u64`.  The reading is
/// of the machine's clock, so nothing is promised of it.
#[verifier::external_body]
pub fn elapsed_ms(start: &std::time::Instant) -> (r: u64) {
    start.elapsed().as_millis() as u64
}

} // verus!
