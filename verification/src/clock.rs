//! Readings of the monotonic clock.
//!
//! The cache measures an entry's age against a monotonic clock, never
//! the wall clock, so that system clock adjustments cannot make a
//! fresh entry look stale.  The two functions here are the only place
//! where the library touches the clock; everything downstream works
//! on the plain nanosecond count they hand back.

use vstd::prelude::*;

verus! {

/// Declares std::time::Instant: an opaque reading of the monotonic
/// clock, held only to measure the span to a later reading.
#[verifier::external_type_specification]
#[verifier::external_body]
pub struct ExInstant(std::time::Instant);

/// Relies on std::time::Instant::now: one reading of the monotonic
/// clock.  Nothing is promised of the reading itself.
#[verifier::external_body]
pub(crate) fn monotonic_now() -> (r: std::time::Instant) {
    std::time::Instant::now()
}

/// Relies on std::time::Instant::duration_since: the span from
/// `earlier` to `later`, saturating to zero when `earlier` is in fact
/// the later reading; the span is handed back as whole nanoseconds.
/// The value depends on when the two readings were taken, so nothing
/// is promised of it.
#[verifier::external_body]
pub(crate) fn nanos_between(earlier: &std::time::Instant, later: &std::time::Instant) -> (r: u128) {
    later.duration_since(*earlier).as_nanos()
}

} // verus!
