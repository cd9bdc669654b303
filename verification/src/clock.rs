//! Spans of time and points in time, as the standard library has them.
use vstd::prelude::*;

verus! {

/// `std::time::Instant`, a point on the monotonic clock.
#[verifier::external_type_specification]
#[verifier::external_body]
pub struct ExInstant(std::time::Instant);

/// `std::time::SystemTime`, a point on the wall clock.
#[verifier::external_type_specification]
#[verifier::external_body]
pub struct ExSystemTime(std::time::SystemTime);

/// The length of a span in nanoseconds: what `Duration::as_nanos` returns.
pub uninterp spec fn nanos(span: std::time::Duration) -> nat;

/// The nanoseconds from `earlier` to `later` on the monotonic clock, zero when
/// `later` comes first: what `Instant::saturating_duration_since` returns.
pub uninterp spec fn between(later: std::time::Instant, earlier: std::time::Instant) -> nat;

/// The nanoseconds from `earlier` to `later` on the wall clock, none when `later`
/// comes first: what `SystemTime::duration_since` returns.
pub uninterp spec fn wall_between(
    later: std::time::SystemTime,
    earlier: std::time::SystemTime,
) -> Option<nat>;

/// `Duration::as_nanos` is the span's length in nanoseconds.
pub assume_specification[ std::time::Duration::as_nanos ](span: &std::time::Duration) -> (r: u128)
    ensures
        r == nanos(*span),
;

/// `Duration::from_millis` makes a span of that many milliseconds.
pub assume_specification[ std::time::Duration::from_millis ](millis: u64) -> (span:
    std::time::Duration)
    ensures
        nanos(span) == millis * 1_000_000,
;

/// `Instant::saturating_duration_since` is the span between two points of the
/// monotonic clock; it depends on the two points alone, and from a point to itself
/// it is zero.
#[verifier::external_body]
pub(crate) fn since(later: std::time::Instant, earlier: std::time::Instant) -> (span:
    std::time::Duration)
    ensures
        nanos(span) == between(later, earlier),
        later == earlier ==> nanos(span) == 0,
{
    later.saturating_duration_since(earlier)
}

/// `Instant::now` reads the monotonic clock; nothing is claimed of what it reads.
#[verifier::external_body]
pub(crate) fn now() -> std::time::Instant {
    std::time::Instant::now()
}

/// `SystemTime::now` reads the wall clock; nothing is claimed of what it reads.
#[verifier::external_body]
pub(crate) fn wall() -> std::time::SystemTime {
    std::time::SystemTime::now()
}

/// `SystemTime::duration_since` is the span from `earlier` to `later`, or an
/// error when `later` comes first; it depends on the two points alone, and from a
/// point to itself it is zero.
#[verifier::external_body]
pub(crate) fn wall_since(later: std::time::SystemTime, earlier: std::time::SystemTime) -> (span:
    Option<std::time::Duration>)
    ensures
        wall_between(later, earlier) == (match span {
            Some(span) => Some(nanos(span)),
            None => None,
        }),
        later == earlier ==> span is Some && nanos(span->0) == 0,
{
    later.duration_since(earlier).ok()
}

} // verus!
