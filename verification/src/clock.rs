//! The simulated clock: which ticks open a new trading session.
use crate::types::Timestamp;
use vstd::prelude::*;

verus! {

/// A tick opens a new session when more than this many nanoseconds (eight
/// hours) have passed since the tick before it.
pub const SESSION_GAP_NANOS: i128 = 28_800_000_000_000;

/// Nanoseconds from the first instant to the second.
pub open spec fn elapsed(from: Timestamp, to: Timestamp) -> int {
    to.instant() - from.instant()
}

/// Whether a tick at `current` is the first of a session, given the time of
/// the tick before it: the first tick of all is, and so is one that follows a
/// gap of more than eight hours.
pub open spec fn is_new_session(previous: Option<Timestamp>, current: Timestamp) -> bool {
    match previous {
        None => true,
        Some(before) => elapsed(before, current) > SESSION_GAP_NANOS,
    }
}

/// Nanoseconds from the first instant to the second.
pub fn nanos_between(from: Timestamp, to: Timestamp) -> (gap: i128)
    ensures
        gap == elapsed(from, to),
{
    let secs: i128 = to.secs as i128 - from.secs as i128;
    let nanos: i128 = to.nanos as i128 - from.nanos as i128;
    assert(-0x1_0000_0000_0000_0000 <= secs <= 0x1_0000_0000_0000_0000);
    assert(secs * 1_000_000_000 + nanos == elapsed(from, to)) by (nonlinear_arith)
        requires
            secs == to.secs - from.secs,
            nanos == to.nanos - from.nanos,
            elapsed(from, to) == (to.secs * 1_000_000_000 + to.nanos) - (from.secs * 1_000_000_000
                + from.nanos),
    ;
    secs * 1_000_000_000 + nanos
}

/// Whether a tick at `current` is the first of a session, given the time of
/// the tick before it.
pub fn new_session(previous: Option<Timestamp>, current: Timestamp) -> (first: bool)
    ensures
        first == is_new_session(previous, current),
{
    match previous {
        None => true,
        Some(before) => nanos_between(before, current) > SESSION_GAP_NANOS,
    }
}

/// `std::time::Instant`: a reading of the machine's monotonic clock.
#[verifier::external_type_specification]
#[verifier::external_body]
pub struct ExInstant(std::time::Instant);

/// A reading of the monotonic clock by `std::time::Instant::now`. Nothing is
/// claimed of it.
#[verifier::external_body]
pub(crate) fn stopwatch_start() -> (start: std::time::Instant) {
    std::time::Instant::now()
}

/// The time since the reading, by `std::time::Instant::elapsed`. Nothing is
/// claimed of it.
#[verifier::external_body]
pub(crate) fn stopwatch_read(start: &std::time::Instant) -> (elapsed: core::time::Duration) {
    start.elapsed()
}

/// The current time by `chrono::Utc::now`, as the seconds and nanoseconds
/// that `DateTime::timestamp` and `DateTime::timestamp_subsec_nanos` give for
/// it. Nothing is claimed of the instant. (`Utc::now` gives up where the
/// system clock stands before the Unix epoch.)
#[verifier::external_body]
pub(crate) fn utc_now() -> (now: Timestamp) {
    let now = chrono::Utc::now();
    Timestamp { secs: now.timestamp(), nanos: now.timestamp_subsec_nanos() }
}

} // verus!
