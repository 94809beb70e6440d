//! Clocks. What they return depends on when they are read, so nothing is
//! stated of their results; the logic that uses a reading takes it as an
//! argument.
use vstd::prelude::*;

verus! {

#[verifier::external_type_specification]
#[verifier::external_body]
pub struct ExInstant(std::time::Instant);

/// `std::time::Instant::now`.
#[verifier::external_body]
pub(crate) fn instant_now() -> std::time::Instant {
    std::time::Instant::now()
}

/// Whole nanoseconds since `t` was taken (`Instant::elapsed` then
/// `Duration::as_nanos`). A reading of the clock: nothing is stated of it.
#[verifier::external_body]
pub(crate) fn elapsed_nanos(t: &std::time::Instant) -> u128 {
    t.elapsed().as_nanos()
}

#[verifier::external_type_specification]
#[verifier::external_body]
pub struct ExSystemTime(std::time::SystemTime);

/// `std::time::SystemTime::now`.
#[verifier::external_body]
pub(crate) fn system_time_now() -> std::time::SystemTime {
    std::time::SystemTime::now()
}

/// Whole seconds from the Unix epoch to `t` (`SystemTime::duration_since`
/// with `UNIX_EPOCH`), 0 where `t` is before the epoch.
#[verifier::external_body]
pub(crate) fn secs_since_epoch(t: &std::time::SystemTime) -> u64 {
    t.duration_since(std::time::UNIX_EPOCH).unwrap_or_default().as_secs()
}

} // verus!
