use vstd::prelude::*;

verus! {

/// The current time as whole seconds since the Unix epoch.
///
/// Calls `chrono::Utc::now` and reads its `timestamp`. The clock is outside the program,
/// so only the range is promised: a `chrono::DateTime<Utc>` lies between the years
/// -262143 and 262142, well within nine trillion seconds of the epoch either way.
#[verifier::external_body]
pub(crate) fn utc_now_secs() -> (r: i64)
    ensures
        -TIME_BOUND <= r <= TIME_BOUND,
{
    chrono::Utc::now().timestamp()
}

/// A bound on the seconds of any time the library handles.
pub const TIME_BOUND: i64 = 9_000_000_000_000;

#[verifier::external_type_specification]
#[verifier::external_body]
pub struct ExInstant(std::time::Instant);

/// A reading of the monotonic clock.
///
/// Calls `std::time::Instant::now`; nothing is promised about the reading.
#[verifier::external_body]
pub(crate) fn instant_now() -> std::time::Instant {
    std::time::Instant::now()
}

/// Milliseconds since `start` on the monotonic clock.
///
/// Calls `Instant::elapsed` and reads `as_millis`, narrowed to `u64`. Time passes outside
/// the program, so nothing is promised about the value.
#[verifier::external_body]
pub(crate) fn millis_since(start: &std::time::Instant) -> u64 {
    start.elapsed().as_millis() as u64
}

} // verus!
