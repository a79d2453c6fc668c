//! The wall clock.

use vstd::prelude::*;

verus! {

/// The current time in microseconds since the Unix epoch
/// (`chrono::Utc::now().timestamp_micros()`). Nothing is promised of the
/// value: it is the time.
#[verifier::external_body]
pub(crate) fn now_micros() -> (r: i64) {
    chrono::Utc::now().timestamp_micros()
}

/// The current time as RFC 3339 text (`chrono::Utc::now().to_rfc3339()`).
/// Nothing is promised of it: it is the time.
#[verifier::external_body]
pub(crate) fn now_rfc3339() -> (r: String) {
    chrono::Utc::now().to_rfc3339()
}

/// A point of tokio's monotonic clock.
#[verifier::external_type_specification]
#[verifier::external_body]
pub struct ExInstant(tokio::time::Instant);

/// The current point of the monotonic clock (`tokio::time::Instant::now`).
/// Nothing is promised of it: it is the time.
#[verifier::external_body]
pub(crate) fn instant_now() -> (r: tokio::time::Instant) {
    tokio::time::Instant::now()
}

/// Whether less than `ms` milliseconds have passed since `t`
/// (`t.elapsed() < Duration::from_millis(ms)`). Nothing is promised: the
/// answer depends on the time.
#[verifier::external_body]
pub(crate) fn elapsed_under(t: &tokio::time::Instant, ms: u64) -> (r: bool) {
    t.elapsed() < std::time::Duration::from_millis(ms)
}

} // verus!
