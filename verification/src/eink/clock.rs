//! Monotonic time for the emulator's timeouts and power accounting.
use vstd::prelude::*;
pub use std::time::Instant;
use std::time::Duration;

verus! {

#[verifier::external_type_specification]
#[verifier::external_body]
pub struct ExInstant(std::time::Instant);

/// `Instant::now`: the current instant. Nothing is stated of its value: it
/// depends on the clock.
#[verifier::external_body]
pub(crate) fn now() -> (r: Instant) {
    Instant::now()
}

/// `Instant::elapsed`: the time since `start`. Nothing is stated of its
/// value: it depends on the clock.
#[verifier::external_body]
fn instant_elapsed(start: &Instant) -> (r: Duration) {
    start.elapsed()
}

/// `Duration::as_millis`: whole milliseconds of `d`. Nothing is stated of
/// the value.
#[verifier::external_body]
fn duration_millis(d: &Duration) -> (r: u128) {
    d.as_millis()
}

/// Whole milliseconds since `start`.
pub(crate) fn elapsed_since(start: &Instant) -> (r: u128) {
    let d = instant_elapsed(start);
    duration_millis(&d)
}

} // verus!
