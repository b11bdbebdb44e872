//! Durations, as far as the rules of this library speak of them.

use std::time::Duration;
use vstd::prelude::*;

verus! {

/// The number of nanoseconds in a duration: what `Duration::as_nanos` returns.
pub uninterp spec fn duration_nanos(duration: Duration) -> nat;

/// `Duration::from_secs` makes a duration of `secs` whole seconds.
pub assume_specification[ Duration::from_secs ](secs: u64) -> (duration: Duration)
    ensures
        duration_nanos(duration) == secs as nat * 1_000_000_000,
;

/// `Duration::from_millis` makes a duration of `millis` milliseconds.
pub assume_specification[ Duration::from_millis ](millis: u64) -> (duration: Duration)
    ensures
        duration_nanos(duration) == millis as nat * 1_000_000,
;

} // verus!
