//! The monotonic clock. A context measures its deadline in nanoseconds
//! elapsed since an origin instant that the whole chain of contexts
//! derived from one `background` context shares.
use std::time::Duration;
use std::time::Instant;
use vstd::prelude::*;

verus! {

#[verifier::external_type_specification]
#[verifier::external_body]
pub struct ExInstant(Instant);

/// Reads the monotonic clock (`std::time::Instant::now`). Nothing is
/// stated of the result: it depends on when the call is made.
#[verifier::external_body]
pub fn instant_now() -> Instant {
    Instant::now()
}

/// The time that has passed since `origin` (`std::time::Instant::elapsed`).
/// Nothing is stated of the result: it depends on when the call is made.
#[verifier::external_body]
fn instant_elapsed(origin: &Instant) -> Duration {
    origin.elapsed()
}

/// The most nanoseconds a `std::time::Duration` holds: it is a `u64`
/// number of seconds plus fewer than a billion nanoseconds.
pub open spec fn max_duration_nanos() -> int {
    18_446_744_073_709_551_615int * 1_000_000_000int + 999_999_999int
}

/// The whole number of nanoseconds in `d` (`std::time::Duration::as_nanos`).
/// A `Duration` is opaque here; what is stated is the range its documented
/// representation (`u64` seconds, nanoseconds below a billion) allows.
#[verifier::external_body]
fn duration_as_nanos(d: &Duration) -> (n: u128)
    ensures
        n <= max_duration_nanos(),
{
    d.as_nanos()
}

/// Nanoseconds elapsed on the monotonic clock since `origin`.
pub fn nanos_since(origin: &Instant) -> (n: u128)
    ensures
        n <= max_duration_nanos(),
{
    let d = instant_elapsed(origin);
    duration_as_nanos(&d)
}

} // verus!
