//! Monotonic time as plain numbers.

use std::time::Instant;
use vstd::prelude::*;

verus! {

/// `std::time::Instant`, an opaque point of the machine's monotonic clock.
#[verifier::external_type_specification]
#[verifier::external_body]
pub struct ExInstant(std::time::Instant);

/// Calls `Instant::now`. Nothing is claimed of the point in time that it returns.
#[verifier::external_body]
fn instant_now() -> (r: Instant) {
    Instant::now()
}

/// Calls `Instant::elapsed` and gives the duration in nanoseconds. Nothing is claimed of the
/// number: it depends on when the call is made.
#[verifier::external_body]
fn nanos_since(origin: &Instant) -> (r: u128) {
    origin.elapsed().as_nanos()
}

/// A monotonic clock that counts nanoseconds from its start.
#[derive(Debug)]
pub struct Clock {
    origin: Instant,
}

impl Clock {
    /// A clock that starts now.
    pub fn start() -> (r: Clock) {
        Clock { origin: instant_now() }
    }

    /// Nanoseconds since the start.
    pub fn now(&self) -> (r: u128) {
        nanos_since(&self.origin)
    }
}

/// Nanoseconds from `since` to `now`, zero when `since` lies ahead.
pub open spec fn elapsed_nanos(now: u128, since: u128) -> u128 {
    if now >= since {
        (now - since) as u128
    } else {
        0
    }
}

/// Whole milliseconds from `since` to `now`.
pub open spec fn elapsed_millis(now: u128, since: u128) -> u64 {
    (elapsed_nanos(now, since) / 1_000_000) as u64
}

/// At least `millis` milliseconds have passed since `since`.
pub open spec fn lasted(now: u128, since: u128, millis: u64) -> bool {
    elapsed_nanos(now, since) >= millis * 1_000_000
}

/// Nanoseconds from `since` to `now`, zero when `since` lies ahead.
pub fn nanos_between(now: u128, since: u128) -> (r: u128)
    ensures
        r == elapsed_nanos(now, since),
{
    if now >= since {
        now - since
    } else {
        0
    }
}

/// Whole milliseconds from `since` to `now`.
pub fn millis_between(now: u128, since: u128) -> (r: u64)
    ensures
        r == elapsed_millis(now, since),
{
    (nanos_between(now, since) / 1_000_000) as u64
}

/// True when at least `millis` milliseconds have passed since `since`.
pub fn has_lasted(now: u128, since: u128, millis: u64) -> (r: bool)
    ensures
        r == lasted(now, since, millis),
{
    nanos_between(now, since) >= (millis as u128) * 1_000_000
}

/// Time runs forward only: what has passed is the difference of the readings, nothing where
/// `since` lies ahead, and a span has lasted from its very end on.
pub proof fn law_spans_end_on_time(now: u128, since: u128, millis: u64)
    ensures
        now >= since ==> elapsed_nanos(now, since) == now - since,
        now < since ==> elapsed_nanos(now, since) == 0,
        now >= since ==> (lasted(now, since, millis) <==> now >= since + millis * 1_000_000),
        now < since ==> (lasted(now, since, millis) <==> millis == 0),
        now >= since && now - since < 1_000_000 * u64::MAX ==> {
            &&& elapsed_millis(now, since) * 1_000_000 <= now - since
            &&& now - since < (elapsed_millis(now, since) + 1) * 1_000_000
        },
{
}

} // verus!
