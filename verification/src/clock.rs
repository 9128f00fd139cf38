//! Wall-clock time and elapsed time, read from the outside.

use vstd::prelude::*;

verus! {

/// A point in time to measure from.
#[verifier::external_type_specification]
#[verifier::external_body]
pub struct ExInstant(std::time::Instant);

/// `chrono::Utc::now`, as milliseconds since the Unix epoch. Nothing is
/// claimed of the time read.
#[verifier::external_body]
pub(crate) fn now_millis() -> (t: i64) {
    chrono::Utc::now().timestamp_millis()
}

/// `std::time::Instant::now`.
#[verifier::external_body]
pub(crate) fn start_timer() -> (start: std::time::Instant) {
    std::time::Instant::now()
}

/// `std::time::Instant::elapsed`, in whole milliseconds. Nothing is claimed
/// of the time measured.
#[verifier::external_body]
pub(crate) fn elapsed_millis(start: &std::time::Instant) -> (ms: u64) {
    start.elapsed().as_millis() as u64
}

} // verus!
