//! Monotonic clock access.
//!
//! Reading the clock depends on when the call is made, so nothing is promised
//! of the values these functions return; the logic that uses them takes the
//! elapsed time as an argument and is verified for every value of it.

use vstd::prelude::*;

verus! {

#[verifier::external_type_specification]
#[verifier::external_body]
pub struct ExInstant(std::time::Instant);

/// Calls `std::time::Instant::now`. Nothing is claimed of the instant returned.
#[verifier::external_body]
pub fn now() -> (t: std::time::Instant) {
    std::time::Instant::now()
}

/// Calls `Instant::elapsed` and `Duration::as_secs`: the whole seconds since `t`.
/// Nothing is claimed of the value, which depends on the time of the call.
#[verifier::external_body]
pub fn secs_since(t: &std::time::Instant) -> (secs: u64) {
    t.elapsed().as_secs()
}

/// Calls `Instant::elapsed` and `Duration::as_millis`: the milliseconds since `t`,
/// saturated to `u64`. Nothing is claimed of the value, which depends on the time
/// of the call.
#[verifier::external_body]
pub fn millis_since(t: &std::time::Instant) -> (ms: u64) {
    u64::try_from(t.elapsed().as_millis()).unwrap_or(u64::MAX)
}

/// Calls `Instant::elapsed` and `Duration::as_nanos`: the nanoseconds since `t`.
/// Nothing is claimed of the value, which depends on the time of the call.
#[verifier::external_body]
pub fn nanos_since(t: &std::time::Instant) -> (ns: u128) {
    t.elapsed().as_nanos()
}

/// Calls `Instant::duration_since` and `Duration::as_millis`: the milliseconds from
/// `earlier` to `later` (zero when `earlier` is the later one), saturated to `u64`.
/// Nothing is claimed of the value: an `Instant` is opaque here.
#[verifier::external_body]
pub fn millis_between(later: &std::time::Instant, earlier: &std::time::Instant) -> (ms: u64) {
    u64::try_from(later.saturating_duration_since(*earlier).as_millis()).unwrap_or(u64::MAX)
}

/// Calls `SystemTime::now` and `SystemTime::duration_since(UNIX_EPOCH)`: the
/// wall-clock time as whole seconds and the nanoseconds past them, or `None` when
/// the clock reads before the epoch (the call's error). The time depends on when
/// the call is made: only that the nanoseconds stay below one second is claimed,
/// as `Duration::subsec_nanos` documents.
#[verifier::external_body]
pub fn unix_time_now() -> (r: Option<(u64, u32)>)
    ensures
        r matches Some((_, nanos)) ==> nanos < 1_000_000_000,
{
    match std::time::SystemTime::now().duration_since(std::time::UNIX_EPOCH) {
        Ok(d) => Some((d.as_secs(), d.subsec_nanos())),
        Err(_) => None,
    }
}

} // verus!
