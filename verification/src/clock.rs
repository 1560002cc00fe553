//! Trusted boundary around the system clocks.

use vstd::prelude::*;

verus! {

/// `std::time::Instant`, a point on the monotonic clock, carried as a value
/// that cannot be looked into.
#[verifier::external_type_specification]
#[verifier::external_body]
pub struct ExInstant(std::time::Instant);

/// `std::time::SystemTime::now`, as whole milliseconds since the Unix epoch
/// (zero where the clock stands before the epoch). Nothing is promised of the
/// value: it is whatever the machine's clock says.
#[verifier::external_body]
pub(crate) fn unix_millis() -> (now: u64) {
    std::time::SystemTime::now()
        .duration_since(std::time::UNIX_EPOCH)
        .unwrap_or_default()
        .as_millis() as u64
}

/// `std::time::Instant::now`: a point on the monotonic clock.
#[verifier::external_body]
pub(crate) fn monotonic_now() -> (now: std::time::Instant) {
    std::time::Instant::now()
}

/// `std::time::Instant::elapsed`, as whole microseconds. Nothing is promised
/// of the value.
#[verifier::external_body]
pub(crate) fn elapsed_micros(since: &std::time::Instant) -> (micros: u64) {
    since.elapsed().as_micros() as u64
}

} // verus!
