//! What the limiter takes from `chrono`: the length of a period and the
//! reading of the wall clock. What `chrono` hands back is believed of it as
//! stated here; what the limiter makes of it, in `period_nanos` and
//! `clock_reading`, is proved.

use vstd::prelude::*;

verus! {

/// `chrono::TimeDelta`, which `chrono::Duration` is another name for. Its
/// fields are private to `chrono`, so a value of it is carried, not read.
#[verifier::external_type_specification]
#[verifier::external_body]
pub struct ExTimeDelta(chrono::TimeDelta);

/// What `chrono::TimeDelta::num_nanoseconds` returns for `span`: the whole
/// nanoseconds in it, or `None` where they do not fit in an `i64`.
pub uninterp spec fn whole_nanoseconds(span: chrono::TimeDelta) -> Option<i64>;

/// `chrono::TimeDelta::num_nanoseconds` computes its result from the span
/// alone and does not panic. The result is given the name
/// `whole_nanoseconds`; nothing is claimed of its value.
pub assume_specification[ chrono::TimeDelta::num_nanoseconds ](span: &chrono::TimeDelta) -> (nanos:
    Option<i64>)
    ensures
        nanos == whole_nanoseconds(*span),
;

/// Reads the system clock with `std::time::SystemTime::now`, turns the
/// reading into a date with `chrono`'s `DateTime::<Utc>::from`, and takes
/// its nanoseconds since the epoch with `DateTime::timestamp_nanos_opt`.
/// A clock that stands before the year 1970 gives a negative number; a
/// date before the year 1677 or past the year 2262 gives `None`. Nothing
/// is claimed of the reading.
#[verifier::external_body]
pub(crate) fn unix_nano() -> (raw: Option<i64>) {
    chrono::DateTime::<chrono::Utc>::from(std::time::SystemTime::now()).timestamp_nanos_opt()
}

/// The time a clock reading stands for: its nanoseconds where it has any
/// and they are not negative, else `fallback`.
pub open spec fn reading(raw: Option<i64>, fallback: nat) -> nat {
    match raw {
        Some(nanos) if nanos >= 0 => nanos as nat,
        _ => fallback,
    }
}

/// Turns what the clock gave into a time, with `fallback` for a reading
/// that is missing or lies before the epoch.
pub fn clock_reading(raw: Option<i64>, fallback: u64) -> (now: u64)
    ensures
        now == reading(raw, fallback as nat),
{
    match raw {
        Some(nanos) if nanos >= 0 => nanos as u64,
        _ => fallback,
    }
}

/// The nanoseconds a period is taken to have: those that `chrono` counted
/// in it, and zero, the length of no period, where it could not count them.
pub open spec fn counted_nanos(counted: Option<i64>) -> int {
    match counted {
        Some(nanos) => nanos as int,
        None => 0,
    }
}

/// Turns what `chrono` counted in a period into a length in nanoseconds,
/// zero where it counted none.
pub fn period_nanos(counted: Option<i64>) -> (nanos: i64)
    ensures
        nanos == counted_nanos(counted),
{
    match counted {
        Some(nanos) => nanos,
        None => 0,
    }
}

} // verus!
