//! Contracts for the few standard-library functions that the library's
//! derived impls call and that vstd leaves unspecified.

use std::time::Duration;
use vstd::prelude::*;

verus! {

/// `Duration::clone`: `Duration` is `Copy`, so its clone is the same value.
pub assume_specification[ <Duration as Clone>::clone ](d: &Duration) -> (res: Duration)
    ensures
        res == *d,
;

/// `Result::clone`: clones the `Ok` or the `Err` payload and keeps the variant.
pub assume_specification<T: Clone, E: Clone>[ <Result<T, E> as Clone>::clone ](
    r: &Result<T, E>,
) -> (res: Result<T, E>)
    ensures
        r is Ok ==> res is Ok && cloned::<T>(r->Ok_0, res->Ok_0),
        r is Err ==> res is Err && cloned::<E>(r->Err_0, res->Err_0),
;

} // verus!

verus! {

/// The exact length of a `Duration`, in nanoseconds (what `as_nanos` gives).
pub uninterp spec fn duration_nanos(d: Duration) -> nat;

/// The length of a `Duration` in whole milliseconds (what `as_millis` gives).
pub open spec fn duration_ms(d: Duration) -> nat {
    duration_nanos(d) / 1_000_000
}

/// The exact length, in nanoseconds, of `ms` milliseconds.
pub open spec fn millis_nanos(ms: nat) -> nat {
    ms * 1_000_000
}

/// `Duration::as_nanos`: the exact length of `d` in nanoseconds.
#[verifier::external_body]
pub(crate) fn duration_as_nanos(d: &Duration) -> (ns: u128)
    ensures
        ns == duration_nanos(*d),
{
    d.as_nanos()
}

/// `Duration::as_millis`: the whole milliseconds of `d`.
#[verifier::external_body]
pub(crate) fn duration_as_millis(d: &Duration) -> (ms: u128)
    ensures
        ms == duration_ms(*d),
{
    d.as_millis()
}

/// `Duration::from_millis`: a duration of exactly `ms` milliseconds.
#[verifier::external_body]
pub(crate) fn duration_from_millis(ms: u64) -> (d: Duration)
    ensures
        duration_nanos(d) == millis_nanos(ms as nat),
{
    Duration::from_millis(ms)
}

} // verus!
