use std::time::{Duration, Instant};
use vstd::prelude::*;

verus! {

/// `std::time::Instant`, carried through the library as an opaque value.
#[verifier::external_type_specification]
#[verifier::external_body]
pub struct ExInstant(Instant);

/// Calls `Instant::now`.  What it returns depends on the moment of the call,
/// so nothing is stated of it.
#[verifier::external_body]
fn instant_now() -> (r: Instant) {
    Instant::now()
}

/// Calls `Instant::elapsed`, the time passed since `origin`.  It depends on
/// the moment of the call, so nothing is stated of it.
#[verifier::external_body]
fn instant_elapsed(origin: &Instant) -> (r: Duration) {
    origin.elapsed()
}

/// Calls `Duration::as_nanos`.  `Duration` is opaque here, so the result is
/// stated only as some number of nanoseconds.
#[verifier::external_body]
fn duration_as_nanos(d: &Duration) -> (r: u128) {
    d.as_nanos()
}

/// A monotonic clock that reads nanoseconds since the moment it was made.
#[derive(Clone, Copy)]
pub struct MonotonicClock {
    origin: Instant,
}

impl MonotonicClock {
    /// Starts a clock at the current instant.
    pub fn start() -> (r: Self) {
        MonotonicClock { origin: instant_now() }
    }

    /// Nanoseconds passed since the clock was started.
    pub fn now_nanos(&self) -> (r: u128) {
        let elapsed = instant_elapsed(&self.origin);
        duration_as_nanos(&elapsed)
    }
}

} // verus!
