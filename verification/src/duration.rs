//! What this crate relies on about `std::time::Duration`.

use std::time::Duration;
use vstd::prelude::*;

verus! {

/// The length of a duration in nanoseconds, as `Duration::as_nanos` gives it.
pub uninterp spec fn total_nanos(duration: Duration) -> u128;

/// `Duration::as_nanos` gives the whole length of the duration.
pub assume_specification[ Duration::as_nanos ](duration: &Duration) -> (nanos: u128)
    ensures
        nanos == total_nanos(*duration),
;

/// `Duration::as_micros` gives the number of whole microseconds in the duration.
pub assume_specification[ Duration::as_micros ](duration: &Duration) -> (micros: u128)
    ensures
        micros == total_nanos(*duration) / 1000,
;

/// Whether `duration` is the one duration of that many nanoseconds.
pub open spec fn is_of_nanos(duration: Duration, nanos: u64) -> bool {
    total_nanos(duration) == nanos && forall|other: Duration| #[trigger]
        total_nanos(other) == nanos ==> other == duration
}

/// `Duration::from_nanos` makes the duration of that many nanoseconds. Durations of equally many
/// nanoseconds are equal.
pub assume_specification[ Duration::from_nanos ](nanos: u64) -> (duration: Duration)
    ensures
        is_of_nanos(duration, nanos),
;

/// `Duration::from_micros` makes a duration of that many microseconds.
pub assume_specification[ Duration::from_micros ](micros: u64) -> (duration: Duration)
    ensures
        total_nanos(duration) == micros * 1000,
;

/// `Duration::saturating_sub` gives the difference of two durations, and zero where it would be
/// negative.
pub assume_specification[ Duration::saturating_sub ](duration: Duration, rhs: Duration) -> (
difference: Duration)
    ensures
        total_nanos(difference) == if total_nanos(duration) >= total_nanos(rhs) {
            total_nanos(duration) - total_nanos(rhs)
        } else {
            0
        },
;

/// A duration in nanoseconds, cut off at the largest `u64`.
pub open spec fn capped_nanos(duration: Duration) -> u64 {
    if total_nanos(duration) <= u64::MAX {
        total_nanos(duration) as u64
    } else {
        u64::MAX
    }
}

/// What `Duration::from_nanos` makes of a number counts that number again. What it makes of the
/// count of a duration is that duration, exactly where the count is not cut off. A longer duration
/// never counts less than a shorter one.
pub proof fn nanos_round_trip(
    n: u64,
    of_n: Duration,
    d: Duration,
    of_d: Duration,
    e: Duration,
)
    requires
        is_of_nanos(of_n, n),
        is_of_nanos(of_d, capped_nanos(d)),
    ensures
        capped_nanos(of_n) == n,
        of_d == d <==> total_nanos(d) <= u64::MAX,
        total_nanos(d) <= total_nanos(e) ==> capped_nanos(d) <= capped_nanos(e),
{
}

/// A duration in nanoseconds, cut off at the largest `u64`.
pub fn duration_nanos(duration: Duration) -> (nanos: u64)
    ensures
        nanos == capped_nanos(duration),
{
    let nanos: u128 = duration.as_nanos();
    if nanos <= u64::MAX as u128 {
        nanos as u64
    } else {
        u64::MAX
    }
}

/// A duration counts its nanoseconds, and the largest number of 64 bits where there are more.
pub proof fn durations_are_counted_in_nanoseconds(duration: Duration, nanos: u64)
    requires
        call_ensures(duration_nanos, (duration,), nanos),
    ensures
        total_nanos(duration) <= u64::MAX ==> nanos == total_nanos(duration),
        total_nanos(duration) > u64::MAX ==> nanos == u64::MAX,
        nanos == capped_nanos(duration),
{
}

} // verus!
