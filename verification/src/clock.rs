//! The clocks: the wall clock, as seconds since the Unix epoch, and monotonic
//! points in time.
use vstd::prelude::*;

verus! {

/// `SystemTime::now().duration_since(UNIX_EPOCH)` in whole seconds, or 0 when
/// the clock is before the epoch. Nothing is stated of the value, which
/// depends on the clock.
#[verifier::external_body]
pub(crate) fn unix_time_secs() -> (r: u64) {
    std::time::SystemTime::now().duration_since(std::time::UNIX_EPOCH).map(|d| d.as_secs()).unwrap_or(0)
}

/// Points in monotonic time are carried through sessions and connections unchanged.
#[verifier::external_type_specification]
#[verifier::external_body]
pub struct ExInstant(std::time::Instant);

/// `Instant::now()`: the current point in monotonic time. Nothing is stated
/// of it, which depends on the clock.
#[verifier::external_body]
pub(crate) fn instant_now() -> (r: std::time::Instant) {
    std::time::Instant::now()
}

} // verus!
