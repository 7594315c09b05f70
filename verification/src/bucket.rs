//! The budget of a limiter as a mathematical value, and its transitions.

use vstd::prelude::*;

verus! {

/// Nanoseconds in the period that stands in for one that is not positive.
pub const NANOS_PER_SECOND: u64 = 1_000_000_000;

/// The rate a caller's number stands for: numbers below one count as one.
pub open spec fn effective_rate(rate: int) -> nat {
    if rate < 1 {
        1
    } else {
        rate as nat
    }
}

/// The length of one period in nanoseconds: a length below one nanosecond
/// counts as one second.
pub open spec fn effective_unit(nanos: int) -> nat {
    if nanos < 1 {
        NANOS_PER_SECOND as nat
    } else {
        nanos as nat
    }
}

/// One rate-limiting budget.
///
/// `allowance` and `max` are scaled by `unit`: one token is `unit` of
/// allowance, and a full budget holds `rate * unit`.
pub struct Bucket {
    /// Tokens granted per period.
    pub rate: nat,
    /// Length of one period in nanoseconds.
    pub unit: nat,
    /// What is available now, in tokens times `unit`.
    pub allowance: nat,
    /// The ceiling to which `limit` cuts the allowance.
    pub max: nat,
    /// Time of the latest `limit`, in nanoseconds since the epoch.
    pub last_check: nat,
}

impl Bucket {
    /// What holds of every budget a limiter can reach.
    pub open spec fn valid(self) -> bool {
        &&& self.rate >= 1
        &&& self.unit >= 1
        &&& self.max == self.rate * self.unit
    }

    /// A full budget, made at time `now`.
    pub open spec fn fresh(rate: int, nanos: int, now: nat) -> Bucket {
        let rate = effective_rate(rate);
        let unit = effective_unit(nanos);
        Bucket { rate, unit, allowance: rate * unit, max: rate * unit, last_check: now }
    }

    /// The budget with another rate. The allowance is left as it is, also
    /// where it now lies above the ceiling.
    pub open spec fn with_rate(self, rate: int) -> Bucket {
        let rate = effective_rate(rate);
        Bucket { rate, max: rate * self.unit, ..self }
    }

    /// Nanoseconds from the latest check to `now`; none where the clock
    /// went backwards.
    pub open spec fn elapsed(self, now: nat) -> nat {
        if now >= self.last_check {
            (now - self.last_check) as nat
        } else {
            0
        }
    }

    /// The allowance at `now`: what was there and what the elapsed time
    /// brought, cut at the ceiling.
    pub open spec fn available(self, now: nat) -> nat {
        let accrued = self.allowance + self.elapsed(now) * self.rate;
        if accrued >= self.max {
            self.max
        } else {
            accrued
        }
    }

    /// Whether a call at `now` is turned away: less than one token is there.
    pub open spec fn limited(self, now: nat) -> bool {
        self.available(now) < self.unit
    }

    /// The budget after `limit` at `now`: one token is taken unless the
    /// call is turned away.
    pub open spec fn after_limit(self, now: nat) -> Bucket {
        let available = self.available(now);
        let left = if self.limited(now) {
            available
        } else {
            (available - self.unit) as nat
        };
        Bucket { allowance: left, last_check: now, ..self }
    }

    /// The budget after `undo`: one token comes back, but a budget that was
    /// at or above its ceiling is left at the ceiling.
    pub open spec fn after_undo(self) -> Bucket {
        let refunded = if self.allowance >= self.max {
            self.max
        } else {
            self.allowance + self.unit
        };
        Bucket { allowance: refunded, ..self }
    }

    /// The budget brought up to `now` with nothing taken from it.
    pub open spec fn topped_up(self, now: nat) -> Bucket {
        Bucket { allowance: self.available(now), last_check: now, ..self }
    }

    /// The whole tokens that are there at `now`.
    pub open spec fn tokens(self, now: nat) -> nat {
        self.available(now) / self.unit
    }

    /// The budget after one call.
    pub open spec fn after_call(self, call: Call) -> Bucket {
        match call {
            Call::Limit { now } => self.after_limit(now),
            Call::Undo => self.after_undo(),
            Call::UpdateRate { rate } => self.with_rate(rate),
        }
    }

    /// The budget after a run of calls, made in order.
    pub open spec fn after_calls(self, calls: Seq<Call>) -> Bucket
        decreases calls.len(),
    {
        if calls.len() == 0 {
            self
        } else {
            self.after_calls(calls.drop_last()).after_call(calls.last())
        }
    }

    /// The budget after `limit` at each of `times`, in order.
    pub open spec fn after_limits(self, times: Seq<nat>) -> Bucket
        decreases times.len(),
    {
        if times.len() == 0 {
            self
        } else {
            self.after_limits(times.drop_last()).after_limit(times.last())
        }
    }

    /// Whether, of the calls of `limit` at `times`, the one at index `i` is
    /// turned away.
    pub open spec fn limited_in(self, times: Seq<nat>, i: int) -> bool {
        self.after_limits(times.take(i)).limited(times[i])
    }

    /// How many of the calls of `limit` at `times` pass.
    pub open spec fn admissions(self, times: Seq<nat>) -> nat
        decreases times.len(),
    {
        if times.len() == 0 {
            0
        } else {
            let before = times.drop_last();
            let passes: nat = if self.after_limits(before).limited(times.last()) {
                0
            } else {
                1
            };
            self.admissions(before) + passes
        }
    }
}

/// One call on a limiter.
pub enum Call {
    /// `limit` at time `now`.
    Limit { now: nat },
    /// `undo`.
    Undo,
    /// `update_rate` with `rate`.
    UpdateRate { rate: int },
}

/// Times as a clock that never goes backwards gives them.
pub open spec fn nondecreasing(times: Seq<nat>) -> bool {
    forall|i: int, j: int| 0 <= i <= j < times.len() ==> times[i] <= times[j]
}

/// The allowance that accrues at `rate` between the first and the last of
/// `times`.
pub open spec fn accrual(times: Seq<nat>, rate: nat) -> int {
    (times.last() - times.first()) * rate
}

} // verus!
