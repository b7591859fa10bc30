//! The mathematical reading of `core::time::Duration`, and the contracts
//! assumed for the few of its operations that the buffer relies on.
//!
//! A duration is read as its length in whole nanoseconds. Nothing in this
//! module is proved: each contract restates what the standard library
//! documents for the operation it names.

use core::time::Duration;
use vstd::prelude::*;

verus! {

/// The length of a duration in whole nanoseconds: the number that
/// `Duration::as_nanos` returns.
pub uninterp spec fn nanos(d: Duration) -> nat;

/// How much longer `a` is than `b`, and zero where it is not longer.
pub open spec fn saturating_diff(a: Duration, b: Duration) -> nat {
    if nanos(a) >= nanos(b) {
        (nanos(a) - nanos(b)) as nat
    } else {
        0
    }
}

/// `Duration::from_secs` makes a duration of `secs` whole seconds.
pub assume_specification[ Duration::from_secs ](secs: u64) -> (d: Duration)
    ensures
        nanos(d) == secs * 1_000_000_000,
;

/// `Duration::from_millis` makes a duration of `millis` whole milliseconds.
pub assume_specification[ Duration::from_millis ](millis: u64) -> (d: Duration)
    ensures
        nanos(d) == millis * 1_000_000,
;

/// `Duration::from_micros` makes a duration of `micros` whole microseconds.
pub assume_specification[ Duration::from_micros ](micros: u64) -> (d: Duration)
    ensures
        nanos(d) == micros * 1_000,
;

/// `Duration::from_nanos` makes a duration of `n` nanoseconds.
pub assume_specification[ Duration::from_nanos ](n: u64) -> (d: Duration)
    ensures
        nanos(d) == n,
;

/// `Duration::checked_sub` gives the difference `a - b`, and `None` exactly
/// when `b` is the longer of the two.
pub assume_specification[ Duration::checked_sub ](a: Duration, b: Duration) -> (d: Option<
    Duration,
>)
    ensures
        match d {
            Some(d) => nanos(a) >= nanos(b) && nanos(d) == nanos(a) - nanos(b),
            None => nanos(a) < nanos(b),
        },
;

/// `Duration::saturating_sub` gives the difference `a - b`, and the zero
/// duration when `b` is the longer of the two.
pub assume_specification[ Duration::saturating_sub ](a: Duration, b: Duration) -> (d: Duration)
    ensures
        nanos(d) == saturating_diff(a, b),
;

/// The `<` of `Duration`, which holds exactly when `a` is the shorter one.
#[verifier::external_body]
pub(crate) fn precedes(a: Duration, b: Duration) -> (r: bool)
    ensures
        r == (nanos(a) < nanos(b)),
{
    a < b
}

/// The duration of no length at all.
pub fn zero() -> (d: Duration)
    ensures
        nanos(d) == 0,
{
    Duration::from_nanos(0)
}

} // verus!
