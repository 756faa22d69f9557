//! The monotonic clock of std, as far as the library relies on it.

use std::time::{Duration, Instant};
use vstd::prelude::*;

verus! {

/// A reading of std's monotonic clock, carried through opaquely.
#[verifier::external_type_specification]
#[verifier::external_body]
pub struct ExInstant(std::time::Instant);

/// Relies on `Instant::now`: a reading of the monotonic clock. Nothing is
/// known of its value.
pub assume_specification[ std::time::Instant::now ]() -> Instant;

/// Relies on `Instant::saturating_duration_since`: the time from `earlier`
/// to `this`, or zero where `earlier` is later. Nothing more is stated: the
/// library treats the result as any duration.
pub assume_specification[ std::time::Instant::saturating_duration_since ](
    this: &Instant,
    earlier: Instant,
) -> Duration;

/// Relies on `Duration::as_nanos`: the whole duration in nanoseconds.
pub assume_specification[ core::time::Duration::as_nanos ](d: &Duration) -> u128;

/// Nanoseconds from `earlier` to `later`; any value may come back.
pub fn nanos_between(earlier: &Instant, later: &Instant) -> u128 {
    let d = later.saturating_duration_since(*earlier);
    d.as_nanos()
}

} // verus!
