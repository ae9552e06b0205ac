//! Lengths of time.
//!
//! The library keeps `std::time::Duration` in its interface and reasons
//! about a duration through its length in nanoseconds.

use vstd::prelude::*;

verus! {

/// The length of a duration in nanoseconds.
pub uninterp spec fn nanos_of(d: std::time::Duration) -> nat;

/// `Duration::as_nanos` returns the whole length in nanoseconds, which is
/// at most that of `Duration::MAX`: `u64::MAX` seconds and 999,999,999
/// nanoseconds.
pub assume_specification[ std::time::Duration::as_nanos ](d: &std::time::Duration) -> (n: u128)
    ensures
        n == nanos_of(*d),
        n <= u64::MAX * 1_000_000_000 + 999_999_999,
;

/// A copy of a duration is the same duration.
pub assume_specification[ <std::time::Duration as Clone>::clone ](d: &std::time::Duration) -> (r: std::time::Duration)
    ensures
        r == *d,
;

/// `Duration::from_nanos` makes the duration of that many nanoseconds.
pub assume_specification[ std::time::Duration::from_nanos ](nanos: u64) -> (d: std::time::Duration)
    ensures
        nanos_of(d) == nanos,
;

/// `Duration::from_millis` makes the duration of that many milliseconds.
pub assume_specification[ std::time::Duration::from_millis ](millis: u64) -> (d: std::time::Duration)
    ensures
        nanos_of(d) == millis * 1_000_000,
;

/// `Duration::as_secs` returns the whole seconds of the duration.
pub assume_specification[ std::time::Duration::as_secs ](d: &std::time::Duration) -> (secs: u64)
    ensures
        secs == nanos_of(*d) / 1_000_000_000,
;

/// The length of a duration in nanoseconds, at most `u64::MAX`.
pub open spec fn capped_nanos(d: std::time::Duration) -> u64 {
    if nanos_of(d) > u64::MAX {
        u64::MAX
    } else {
        nanos_of(d) as u64
    }
}

/// The length of a duration in nanoseconds, at most `u64::MAX`.
pub fn duration_ns(d: std::time::Duration) -> (n: u64)
    ensures
        n == capped_nanos(d),
{
    let nanos = d.as_nanos();
    if nanos > u64::MAX as u128 {
        u64::MAX
    } else {
        nanos as u64
    }
}

/// A point in time on the clock of the machine.
#[verifier::external_type_specification]
#[verifier::external_body]
pub struct ExInstant(std::time::Instant);

/// `Instant::now` reads the clock: nothing is known of what it returns.
pub assume_specification[ std::time::Instant::now ]() -> (now: std::time::Instant)
;

/// `Instant::elapsed` reads the clock again: nothing is known of the time
/// that has passed.
pub assume_specification[ std::time::Instant::elapsed ](start: &std::time::Instant) -> (d: std::time::Duration)
;

/// A duration of the given length as `Debug` writes it, in the largest
/// unit that fits, as in `1.5s` or `250ms`.
pub uninterp spec fn duration_debug_text(nanos: nat) -> Seq<char>;

/// Writes a duration as its `Debug` implementation does, which goes by the
/// length of the duration alone.
#[verifier::external_body]
pub(crate) fn duration_debug(d: &std::time::Duration) -> (s: String)
    ensures
        s@ == duration_debug_text(nanos_of(*d)),
{
    format!("{:?}", d)
}

} // verus!
