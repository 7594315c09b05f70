//! The executable limiter.

use vstd::prelude::*;
use crate::bucket::{Bucket, NANOS_PER_SECOND, effective_rate, effective_unit};
use crate::clock::{clock_reading, counted_nanos, period_nanos, reading, unix_nano, whole_nanoseconds};

verus! {

/// The largest rate and the longest period, in nanoseconds, that a limiter
/// is made with: both come in as an `i64`.
const WIDEST: u64 = 0x7fff_ffff_ffff_ffff;

/// A rate limiter for one budget.
///
/// Every operation takes the limiter by `&mut`, so each runs alone and
/// changes all fields at once; threads that share a limiter put it behind
/// a lock. The allowance and its ceiling are held in 128 bits, wide enough
/// for the product of any rate and any period.
pub struct Limiter {
    rate: u64,
    unit: u64,
    allowance: u128,
    max: u128,
    last_check: u64,
}

impl View for Limiter {
    type V = Bucket;

    closed spec fn view(&self) -> Bucket {
        Bucket {
            rate: self.rate as nat,
            unit: self.unit as nat,
            allowance: self.allowance as nat,
            max: self.max as nat,
            last_check: self.last_check as nat,
        }
    }
}

/// The rate that `rate` stands for.
fn rate_from(rate: i64) -> (r: u64)
    ensures
        r == effective_rate(rate as int),
        1 <= r <= WIDEST,
{
    if rate < 1 {
        1
    } else {
        rate as u64
    }
}

/// The period length that `nanos` stands for.
fn unit_from(nanos: i64) -> (unit: u64)
    ensures
        unit == effective_unit(nanos as int),
        1 <= unit <= WIDEST,
{
    if nanos < 1 {
        NANOS_PER_SECOND
    } else {
        nanos as u64
    }
}

/// The ceiling of a budget: `rate` tokens of `unit` each.
fn ceiling(rate: u64, unit: u64) -> (max: u128)
    requires
        rate <= WIDEST,
        unit <= WIDEST,
    ensures
        max == rate * unit,
{
    assert(rate * unit <= WIDEST * WIDEST) by (nonlinear_arith)
        requires
            rate <= WIDEST,
            unit <= WIDEST,
    ;
    (rate as u128) * (unit as u128)
}

impl Limiter {
    /// What the fields of every limiter satisfy: a valid budget whose
    /// numbers fit their fields with room for one `limit`.
    #[verifier::type_invariant]
    spec fn inv(&self) -> bool {
        &&& self@.valid()
        &&& self.rate <= WIDEST
        &&& self.unit <= WIDEST
        &&& self.allowance <= (WIDEST + 1) * self.unit
    }

    /// A limiter of `rate` tokens per `per`, full, with the reading of the
    /// wall clock as the time of its latest check: the epoch where the clock
    /// has no reading or stands before the epoch. A rate below one counts
    /// as one; a period that is
    /// below one nanosecond, or so long that `chrono` cannot count its
    /// nanoseconds, counts as one second.
    pub fn new(rate: i64, per: chrono::Duration) -> (limiter: Limiter)
        ensures
            exists|raw: Option<i64>|
                limiter@ == Bucket::fresh(
                    rate as int,
                    counted_nanos(whole_nanoseconds(per)),
                    #[trigger] reading(raw, 0),
                ),
            limiter@.valid(),
    {
        let nanos = period_nanos(per.num_nanoseconds());
        let raw = unix_nano();
        let now = clock_reading(raw, 0);
        Limiter::starting_at(rate, nanos, now)
    }

    /// A limiter of `rate` tokens per `period_nanos` nanoseconds, full, with
    /// `now` as the time of its latest check. A rate below one counts as
    /// one, a period below one nanosecond as one second.
    pub fn starting_at(rate: i64, period_nanos: i64, now: u64) -> (limiter: Limiter)
        ensures
            limiter@ == Bucket::fresh(rate as int, period_nanos as int, now as nat),
            limiter@.valid(),
    {
        let rate = rate_from(rate);
        let unit = unit_from(period_nanos);
        let max = ceiling(rate, unit);
        assert(rate * unit <= (WIDEST + 1) * unit) by (nonlinear_arith)
            requires
                rate <= WIDEST,
        ;
        Limiter { rate, unit, allowance: max, max, last_check: now }
    }

    /// Sets the rate to `rate`, or to one where `rate` is below one, and the
    /// ceiling with it. The allowance stays as it is: where it now lies
    /// above the ceiling, the next `limit` cuts it.
    pub fn update_rate(&mut self, rate: i64)
        ensures
            final(self)@ == old(self)@.with_rate(rate as int),
            final(self)@.valid(),
    {
        proof {
            use_type_invariant(&*self);
        }
        let rate = rate_from(rate);
        let max = ceiling(rate, self.unit);
        *self = Limiter {
            rate,
            unit: self.unit,
            allowance: self.allowance,
            max,
            last_check: self.last_check,
        };
    }

    /// Decides one call at the reading of the wall clock, and returns `true`
    /// where the call is turned away. Where the clock has no reading or
    /// stands before the epoch, the time of the latest check stands in for
    /// it: no time has passed.
    pub fn limit(&mut self) -> (limited: bool)
        ensures
            exists|raw: Option<i64>|
                final(self)@ == old(self)@.after_limit(
                    #[trigger] reading(raw, old(self)@.last_check),
                ) && limited == old(self)@.limited(reading(raw, old(self)@.last_check)),
            final(self)@.valid(),
    {
        let raw = unix_nano();
        let now = clock_reading(raw, self.last_check);
        self.limit_at(now)
    }

    /// Decides one call at time `now`, and returns `true` where the call is
    /// turned away.
    ///
    /// The time since the latest check, none where `now` lies before it,
    /// is turned into allowance at `rate` per nanosecond; the allowance is
    /// cut at the ceiling; the call passes, and pays `unit`, where at least
    /// `unit` is there.
    pub fn limit_at(&mut self, now: u64) -> (limited: bool)
        ensures
            final(self)@ == old(self)@.after_limit(now as nat),
            limited == old(self)@.limited(now as nat),
            final(self)@.valid(),
    {
        proof {
            use_type_invariant(&*self);
        }
        let passed: u64 = if now >= self.last_check {
            now - self.last_check
        } else {
            0
        };
        assert(self.allowance + passed * self.rate <= u128::MAX) by (nonlinear_arith)
            requires
                self.allowance <= (WIDEST + 1) * self.unit,
                self.unit <= WIDEST,
                self.rate <= WIDEST,
                passed <= u64::MAX,
        ;
        let accrued: u128 = self.allowance + (passed as u128) * (self.rate as u128);
        let available: u128 = if accrued >= self.max {
            self.max
        } else {
            accrued
        };
        let limited = available < self.unit as u128;
        let left: u128 = if limited {
            available
        } else {
            available - self.unit as u128
        };
        assert(left <= (WIDEST + 1) * self.unit) by (nonlinear_arith)
            requires
                left <= self.max,
                self.max == self.rate * self.unit,
                self.rate <= WIDEST,
        ;
        *self = Limiter {
            rate: self.rate,
            unit: self.unit,
            allowance: left,
            max: self.max,
            last_check: now,
        };
        limited
    }

    /// Gives back the token that the latest `limit` took. A budget that is
    /// at or above its ceiling gains nothing and is left at the ceiling.
    /// Without a `limit` that passed before it, the call credits a token
    /// that was never taken.
    pub fn undo(&mut self)
        ensures
            final(self)@ == old(self)@.after_undo(),
            final(self)@.valid(),
    {
        proof {
            use_type_invariant(&*self);
        }
        let prev: u128 = self.allowance;
        assert(self.max + self.unit <= (WIDEST + 1) * self.unit) by (nonlinear_arith)
            requires
                self.max == self.rate * self.unit,
                self.rate <= WIDEST,
        ;
        let refunded: u128 = if prev >= self.max {
            self.max
        } else {
            prev + self.unit as u128
        };
        *self = Limiter {
            rate: self.rate,
            unit: self.unit,
            allowance: refunded,
            max: self.max,
            last_check: self.last_check,
        };
    }
}

impl Limiter {
    /// Tokens granted per period.
    pub fn rate(&self) -> (rate: u64)
        ensures
            rate == self@.rate,
            self@.valid(),
    {
        proof {
            use_type_invariant(self);
        }
        self.rate
    }

    /// Length of one period in nanoseconds, which is also what one token
    /// costs in allowance.
    pub fn unit(&self) -> (unit: u64)
        ensures
            unit == self@.unit,
            self@.valid(),
    {
        proof {
            use_type_invariant(self);
        }
        self.unit
    }

    /// What is available, in tokens times `unit`, as the latest call left
    /// it.
    pub fn allowance(&self) -> (allowance: u128)
        ensures
            allowance == self@.allowance,
            self@.valid(),
    {
        proof {
            use_type_invariant(self);
        }
        self.allowance
    }

    /// The ceiling of the allowance: `rate * unit`.
    pub fn max(&self) -> (max: u128)
        ensures
            max == self@.max,
            max == self@.rate * self@.unit,
            self@.valid(),
    {
        proof {
            use_type_invariant(self);
        }
        self.max
    }

    /// Time of the latest `limit`, or of the making where there was none,
    /// in nanoseconds since the epoch.
    pub fn last_check(&self) -> (last_check: u64)
        ensures
            last_check == self@.last_check,
            self@.valid(),
    {
        proof {
            use_type_invariant(self);
        }
        self.last_check
    }
}

} // verus!
