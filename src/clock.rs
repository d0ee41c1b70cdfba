//! Readings of minstant's monotonic cycle counter, which stamps payloads and
//! times each consumer's run.
use vstd::prelude::*;

verus! {

/// An instant of minstant's clock. It is only carried and compared through
/// the clock itself: nothing in the library reads inside it.
#[verifier::external_type_specification]
#[verifier::external_body]
pub struct ExInstant(minstant::Instant);

/// Relies on `minstant::Instant::now`: the current instant. Nothing is
/// promised of it.
#[verifier::external_body]
pub(crate) fn now() -> minstant::Instant {
    minstant::Instant::now()
}

/// Relies on `minstant::Instant::elapsed` and `Duration::as_nanos`: the
/// nanoseconds from `since` to now, zero if `since` is later. Nothing is
/// promised of the value.
#[verifier::external_body]
pub(crate) fn nanos_since(since: &minstant::Instant) -> u128 {
    since.elapsed().as_nanos()
}

/// A nanosecond count in `u64`, saturating at `u64::MAX`.
pub fn saturate_nanos(n: u128) -> (r: u64)
    ensures
        n <= u64::MAX ==> r == n,
        n > u64::MAX ==> r == u64::MAX,
{
    if n <= u64::MAX as u128 { n as u64 } else { u64::MAX }
}

} // verus!
