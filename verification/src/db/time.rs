//! Wall-clock timestamps in Unix seconds and milliseconds.
use vstd::prelude::*;

verus! {

/// Seconds since the Unix epoch from `SystemTime::now`, or 0 when the clock
/// reads a time before the epoch. The value depends on the clock, so nothing
/// more is stated of it.
#[verifier::external_body]
fn clock_seconds() -> (r: u64) {
    std::time::SystemTime::now().duration_since(std::time::UNIX_EPOCH).unwrap_or_default().as_secs()
}

/// Milliseconds since the Unix epoch from `SystemTime::now`, or 0 when the
/// clock reads a time before the epoch. The value depends on the clock, so
/// nothing more is stated of it.
#[verifier::external_body]
fn clock_millis() -> (r: u128) {
    std::time::SystemTime::now().duration_since(std::time::UNIX_EPOCH).unwrap_or_default().as_millis()
}

/// The current time as Unix seconds, converted to `i64` as `as` does.
pub fn now_seconds() -> i64 {
    let s = clock_seconds();
    s as i64
}

/// The current time as Unix milliseconds, converted to `i64` as `as` does.
pub fn now_ms() -> i64 {
    let ms = clock_millis();
    ms as i64
}

/// The current time as Unix milliseconds, used to stamp stored revisions.
pub fn now_ms_for_diff() -> i64 {
    now_ms()
}

} // verus!
