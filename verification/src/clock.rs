//! Monotonic clock readings and millisecond durations from std.

use std::time::{Duration, Instant};
use vstd::prelude::*;

verus! {

#[verifier::external_type_specification]
#[verifier::external_body]
pub struct ExInstant(std::time::Instant);

/// The `Duration` that `Duration::from_millis(ms)` returns.
pub uninterp spec fn duration_of_millis(ms: u64) -> Duration;

/// `Instant::now`: the current reading of the monotonic clock. Nothing is
/// stated of the value: it depends on when the call happens.
#[verifier::external_body]
pub(crate) fn instant_now() -> Instant {
    Instant::now()
}

/// `Instant::duration_since`, expressed in whole nanoseconds (`as_nanos`
/// only converts the `Duration`). The elapsed time depends on the clock,
/// so nothing is stated of the value.
#[verifier::external_body]
pub(crate) fn nanos_between(earlier: &Instant, later: &Instant) -> u128 {
    later.duration_since(*earlier).as_nanos()
}

/// `Duration::from_millis`: its result is the named duration of `ms`
/// milliseconds.
#[verifier::external_body]
pub(crate) fn duration_from_millis(ms: u64) -> (d: Duration)
    ensures
        d == duration_of_millis(ms),
{
    Duration::from_millis(ms)
}

} // verus!
