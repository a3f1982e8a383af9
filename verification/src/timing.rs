//! Wall-clock measurement of one unit of work.

use std::time::Duration;
use std::time::Instant;
use vstd::prelude::*;

verus! {

/// A reading of the monotonic clock. Nothing is known of what it holds.
#[verifier::external_type_specification]
#[verifier::external_body]
pub struct ExInstant(Instant);

/// Nanoseconds in one second.
pub const NANOS_PER_SEC: u64 = 1_000_000_000;

/// The length in nanoseconds of a duration given as whole seconds and the
/// nanoseconds of the second that has begun.
pub open spec fn nanos_of(secs: u64, subsec_nanos: u32) -> int {
    secs * NANOS_PER_SEC + subsec_nanos
}

/// Converts a duration to whole nanoseconds, or `None` where the count does
/// not fit a `u64`.
pub fn whole_nanos(secs: u64, subsec_nanos: u32) -> (nanos: Option<u64>)
    ensures
        nanos == if nanos_of(secs, subsec_nanos) <= u64::MAX {
            Some(nanos_of(secs, subsec_nanos) as u64)
        } else {
            None
        },
{
    match secs.checked_mul(NANOS_PER_SEC) {
        Some(whole) => whole.checked_add(subsec_nanos as u64),
        None => None,
    }
}

/// `Instant::now` of std: the present reading of the monotonic clock.
/// Nothing is claimed of it.
#[verifier::external_body]
fn now() -> Instant {
    Instant::now()
}

/// `Instant::saturating_duration_since` of std: the time from `earlier` to
/// `later`, zero where `earlier` is the later one. Nothing is claimed of the
/// length.
#[verifier::external_body]
fn between(earlier: &Instant, later: &Instant) -> Duration {
    later.saturating_duration_since(*earlier)
}

/// `Duration::as_secs` of std: the whole seconds of a duration.
/// Nothing is claimed of the number.
#[verifier::external_body]
fn whole_secs(span: &Duration) -> u64 {
    span.as_secs()
}

/// `Duration::subsec_nanos` of std: the part of a duration beyond its whole
/// seconds, in nanoseconds, which std documents as less than one billion.
#[verifier::external_body]
fn fraction_nanos(span: &Duration) -> (nanos: u32)
    ensures
        nanos < NANOS_PER_SEC,
{
    span.subsec_nanos()
}

/// `std::hint::black_box`: hands its argument back, and keeps the compiler
/// from assuming anything about how the value is used.
#[verifier::external_body]
fn black_box<R>(value: R) -> (same: R)
    ensures
        same == value,
{
    std::hint::black_box(value)
}

/// Runs `work` once between two readings of the monotonic clock.
///
/// Returns what `work` returned, passed through the optimization barrier,
/// and the time between the readings in whole nanoseconds, `None` where
/// that does not fit a `u64`. Which time comes back is the clock's affair.
pub fn duration_ns<R, F: FnOnce() -> R>(work: F) -> (res: (Option<u64>, R))
    requires
        work.requires(()),
    ensures
        work.ensures((), res.1),
{
    let before = now();
    let r = black_box(work());
    let after = now();
    let span = between(&before, &after);
    let nanos = whole_nanos(whole_secs(&span), fraction_nanos(&span));
    (nanos, r)
}

} // verus!
