//! What holds of whole runs of calls, proved from the transitions of
//! [`Bucket`].

use vstd::prelude::*;
use vstd::arithmetic::div_mod::lemma_fundamental_div_mod;
use crate::bucket::{Bucket, Call, accrual, effective_rate, effective_unit, nondecreasing};

verus! {

/// The budget after the first `j` calls of a burst that starts with `k`
/// whole tokens and gains less than the rest of one more.
proof fn lemma_burst_prefix(b: Bucket, times: Seq<nat>, k: nat, j: int)
    requires
        b.valid(),
        nondecreasing(times),
        1 <= j <= times.len(),
        k * b.unit <= b.available(times[0]),
        b.available(times[0]) + accrual(times, b.rate) < (k + 1) * b.unit,
    ensures
        ({
            let s = b.after_limits(times.take(j));
            let used = if j <= k { j } else { k as int };
            &&& s.rate == b.rate
            &&& s.unit == b.unit
            &&& s.max == b.max
            &&& s.last_check == times[j - 1]
            &&& s.allowance == b.available(times[0]) - used * b.unit + (times[j - 1] - times[0])
                * b.rate
            &&& b.limited_in(times, j - 1) <==> j - 1 >= k
        }),
    decreases j,
{
    let rate = b.rate as int;
    let unit = b.unit as int;
    let first = times[0] as int;
    assert(times.take(j).drop_last() =~= times.take(j - 1));
    assert(k * unit + unit == (k + 1) * unit) by (nonlinear_arith);
    if j == 1 {
        assert((first - first) * rate == 0) by (nonlinear_arith);
        if k >= 1 {
            assert(k * unit >= unit) by (nonlinear_arith)
                requires
                    k >= 1,
                    unit >= 0,
            ;
        }
    } else {
        lemma_burst_prefix(b, times, k, j - 1);
        let used = if j - 1 <= k { j - 1 } else { k as int };
        let sooner = times[j - 2] as int;
        let now = times[j - 1] as int;
        let last = times.last() as int;
        assert(first <= sooner);
        assert((sooner - first) * rate + (now - sooner) * rate == (now - first) * rate)
            by (nonlinear_arith);
        assert(0 <= (now - first) * rate <= (last - first) * rate) by (nonlinear_arith)
            requires
                first <= now <= last,
                rate >= 0,
        ;
        assert(used * unit + unit == (used + 1) * unit) by (nonlinear_arith);
        if j - 1 < k {
            assert((used + 1) * unit <= k * unit) by (nonlinear_arith)
                requires
                    used + 1 <= k,
                    unit >= 0,
            ;
        }
        assert(b.max >= unit) by (nonlinear_arith)
            requires
                b.max == rate * unit,
                rate >= 1,
                unit >= 0,
        ;
    }
}

/// **A burst drains the whole tokens and no more.** Calls of `limit` come
/// at `times`, which never go backwards. Where what is left over of the
/// allowance at the first call beside its whole tokens, together with what
/// accrues from the first call to the last, stays below one token, the
/// calls that pass are exactly the first `tokens` of them.
pub proof fn law_burst(b: Bucket, times: Seq<nat>)
    requires
        b.valid(),
        times.len() >= 1,
        nondecreasing(times),
        b.available(times[0]) % b.unit + accrual(times, b.rate) < b.unit,
    ensures
        forall|i: int|
            0 <= i < times.len() ==> (#[trigger] b.limited_in(times, i) <==> i >= b.tokens(
                times[0],
            )),
{
    let start = b.available(times[0]) as int;
    let unit = b.unit as int;
    let k = b.tokens(times[0]);
    lemma_fundamental_div_mod(start, unit);
    assert(k * unit + unit == (k + 1) * unit) by (nonlinear_arith);
    assert forall|i: int| 0 <= i < times.len() implies (#[trigger] b.limited_in(times, i) <==> i
        >= k) by {
        lemma_burst_prefix(b, times, k, i + 1);
    }
}

/// **A full budget passes exactly `rate` calls.** Where the budget is at
/// its ceiling when the first of the calls at `times` comes, the times never
/// go backwards, and less than one token accrues from the first call to
/// the last, the first `rate` calls pass and every later one is turned
/// away.
pub proof fn law_full_burst(b: Bucket, times: Seq<nat>)
    requires
        b.valid(),
        times.len() >= 1,
        nondecreasing(times),
        b.available(times[0]) == b.max,
        accrual(times, b.rate) < b.unit,
    ensures
        forall|i: int|
            0 <= i < times.len() ==> (#[trigger] b.limited_in(times, i) <==> i >= b.rate),
{
    let unit = b.unit as int;
    let k = b.rate;
    assert(k * unit + unit == (k + 1) * unit) by (nonlinear_arith);
    assert forall|i: int| 0 <= i < times.len() implies (#[trigger] b.limited_in(times, i) <==> i
        >= k) by {
        lemma_burst_prefix(b, times, k, i + 1);
    }
}

/// The allowance after the first `j` calls on a budget that was full at the
/// first of them: the tokens not yet taken are still there.
proof fn lemma_full_prefix(b: Bucket, times: Seq<nat>, j: int)
    requires
        b.valid(),
        0 <= j <= times.len(),
        j <= b.rate,
        times.len() >= 1,
        b.available(times[0]) == b.max,
    ensures
        ({
            let s = b.after_limits(times.take(j));
            &&& s.rate == b.rate
            &&& s.unit == b.unit
            &&& s.max == b.max
            &&& j >= 1 ==> s.allowance >= (b.rate - j) * b.unit
            &&& j >= 1 ==> !b.limited_in(times, j - 1)
        }),
    decreases j,
{
    let rate = b.rate as int;
    let unit = b.unit as int;
    if j >= 1 {
        assert(times.take(j).drop_last() =~= times.take(j - 1));
        lemma_full_prefix(b, times, j - 1);
        assert((rate - (j - 1)) * unit == (rate - j) * unit + unit) by (nonlinear_arith);
    }
}

/// **A full budget is good for `rate` calls.** Where the budget is at its
/// ceiling when the first of the calls at `times` comes, the first `rate`
/// of them pass, whenever they come, also with a clock that goes backwards.
pub proof fn law_full_budget_passes_rate_calls(b: Bucket, times: Seq<nat>)
    requires
        b.valid(),
        times.len() >= 1,
        b.available(times[0]) == b.max,
    ensures
        forall|i: int| 0 <= i < times.len() && i < b.rate ==> !#[trigger] b.limited_in(times, i),
{
    assert forall|i: int| 0 <= i < times.len() && i < b.rate implies !#[trigger] b.limited_in(
        times,
        i,
    ) by {
        lemma_full_prefix(b, times, i + 1);
    }
}

/// **Exact quota.** A limiter made for `rate` tokens per period of `nanos`
/// nanoseconds, whenever it was made, passes exactly the first
/// `effective_rate(rate)` calls of a burst and turns every later one away:
/// a burst being calls at times that never go backwards, from the first to
/// the last of which less than one token accrues.
pub proof fn law_exact_quota(rate: int, nanos: int, made: nat, times: Seq<nat>)
    requires
        times.len() >= 1,
        nondecreasing(times),
        accrual(times, effective_rate(rate)) < effective_unit(nanos),
    ensures
        forall|i: int|
            0 <= i < times.len() ==> (#[trigger] Bucket::fresh(rate, nanos, made).limited_in(
                times,
                i,
            ) <==> i >= effective_rate(rate)),
{
    law_full_burst(Bucket::fresh(rate, nanos, made), times);
}

/// **Replenishment.** After a call of `limit` at `sooner`, passed or turned
/// away, a call at `later` passes where one token's worth of time lies
/// between them: `(later - sooner) * rate >= unit`.
pub proof fn law_replenishment(b: Bucket, sooner: nat, later: nat)
    requires
        b.valid(),
        sooner <= later,
        (later - sooner) * b.rate >= b.unit,
    ensures
        !b.after_limit(sooner).limited(later),
{
    assert(b.max >= b.unit) by (nonlinear_arith)
        requires
            b.max == b.rate * b.unit,
            b.rate >= 1,
    ;
}

/// **The ceiling comes back.** Whatever calls were made on a valid budget,
/// at whatever times and in whatever order, the budget is valid, its unit
/// is the one it was made with, and after the next `limit` the allowance is
/// at most the ceiling. The allowance is a natural number throughout.
pub proof fn law_ceiling_restored(b: Bucket, calls: Seq<Call>, now: nat)
    requires
        b.valid(),
    ensures
        b.after_calls(calls).valid(),
        b.after_calls(calls).unit == b.unit,
        b.after_calls(calls).after_limit(now).allowance <= b.after_calls(calls).after_limit(
            now,
        ).max,
    decreases calls.len(),
{
    if calls.len() > 0 {
        law_ceiling_restored(b, calls.drop_last(), now);
    }
}

/// **Undo reverses.** Where a call of `limit` at `now` passed, `undo` right
/// after it leaves the budget as time alone would have: brought up to
/// `now`, with nothing taken. So the allowance is the one before the call
/// where that was not above the ceiling and no time had passed, and, with a
/// clock that does not go backwards, a call at `later` fares as if the
/// undone call had never been made.
pub proof fn law_undo_reverses(b: Bucket, now: nat, later: nat)
    requires
        b.valid(),
        !b.limited(now),
    ensures
        b.after_limit(now).after_undo() == b.topped_up(now),
        b.allowance <= b.max && now <= b.last_check ==> b.after_limit(now).after_undo().allowance
            == b.allowance,
        b.last_check <= now <= later ==> b.after_limit(now).after_undo().after_limit(later)
            == b.after_limit(later),
        b.last_check <= now <= later ==> b.after_limit(now).after_undo().limited(later)
            == b.limited(later),
{
    let rate = b.rate as int;
    if now <= b.last_check {
        assert(b.elapsed(now) * rate == 0) by (nonlinear_arith)
            requires
                b.elapsed(now) == 0,
        ;
    }
    if b.last_check <= now <= later {
        let since = (now - b.last_check) as int;
        let more = (later - now) as int;
        assert(since * rate + more * rate == (since + more) * rate) by (nonlinear_arith);
    }
}

/// **A new rate takes effect.** After `update_rate(rate)` the budget is
/// valid with the new rate and ceiling and the allowance it had. Once it is
/// full under them when a burst starts, by what was banked before the update
/// or by what accrued since, the burst passes exactly the first
/// `effective_rate(rate)` calls: allowance banked above the new ceiling buys
/// nothing.
pub proof fn law_rate_update_takes_effect(b: Bucket, rate: int, times: Seq<nat>)
    requires
        b.valid(),
        times.len() >= 1,
        nondecreasing(times),
        b.allowance + b.elapsed(times[0]) * effective_rate(rate) >= effective_rate(rate) * b.unit,
        accrual(times, effective_rate(rate)) < b.unit,
    ensures
        b.with_rate(rate).valid(),
        b.with_rate(rate).rate == effective_rate(rate),
        b.with_rate(rate).allowance == b.allowance,
        forall|i: int|
            0 <= i < times.len() ==> (#[trigger] b.with_rate(rate).limited_in(times, i) <==> i
                >= effective_rate(rate)),
{
    law_full_burst(b.with_rate(rate), times);
}

/// The budget after calls of `limit` at `times`, and what they let pass.
proof fn lemma_admissions(b: Bucket, times: Seq<nat>)
    requires
        b.valid(),
        times.len() >= 1,
        nondecreasing(times),
    ensures
        b.after_limits(times).rate == b.rate,
        b.after_limits(times).unit == b.unit,
        b.after_limits(times).max == b.max,
        b.after_limits(times).last_check == times.last(),
        b.admissions(times) * b.unit + b.after_limits(times).allowance <= b.max + accrual(
            times,
            b.rate,
        ),
    decreases times.len(),
{
    let before = times.drop_last();
    let rate = b.rate as int;
    let unit = b.unit as int;
    let first = times.first() as int;
    let now = times.last() as int;
    if before.len() == 0 {
        assert(0 * unit == 0) by (nonlinear_arith);
        assert(1 * unit == unit) by (nonlinear_arith);
    } else {
        lemma_admissions(b, before);
        let sooner = before.last() as int;
        assert((sooner - first) * rate + (now - sooner) * rate == (now - first) * rate)
            by (nonlinear_arith);
        let passed = b.admissions(before) as int;
        assert(passed * unit + unit == (passed + 1) * unit) by (nonlinear_arith);
    }
}

/// **No more passes than the ceiling and the clock allow.** Of calls of
/// `limit` at times that never go backwards, made one after another by
/// whomever, those that pass number at most `rate` and the whole tokens that
/// accrue from the first call to the last. A clock that goes back and
/// forth brings the same stretch of time more than once, so nothing of the
/// kind holds of it.
pub proof fn law_admissions_bounded(b: Bucket, times: Seq<nat>)
    requires
        b.valid(),
        times.len() >= 1,
        nondecreasing(times),
    ensures
        b.admissions(times) * b.unit <= b.max + accrual(times, b.rate),
        b.admissions(times) <= b.rate + accrual(times, b.rate) / (b.unit as int),
{
    lemma_admissions(b, times);
    let unit = b.unit as int;
    let gained = accrual(times, b.rate);
    let over = b.admissions(times) - b.rate;
    assert(over * unit <= gained) by (nonlinear_arith)
        requires
            b.admissions(times) * unit <= b.rate * unit + gained,
            over == b.admissions(times) - b.rate,
    ;
    lemma_fundamental_div_mod(gained, unit);
    assert(over <= gained / unit) by (nonlinear_arith)
        requires
            over * unit <= gained,
            gained == unit * (gained / unit) + gained % unit,
            0 <= gained % unit < unit,
            unit >= 1,
    ;
}

} // verus!
