//! The limiter at times the test chooses.

use rate_limiter::bucket::NANOS_PER_SECOND;
use rate_limiter::clock::{clock_reading, period_nanos};
use rate_limiter::Limiter;

const MINUTE: i64 = 60_000_000_000;

fn burst(l: &mut Limiter, at: u64, calls: usize) -> usize {
    let mut passed = 0;
    for _ in 0..calls {
        if !l.limit_at(at) {
            passed += 1;
        }
    }
    passed
}

#[test]
fn starts_full() {
    let l = Limiter::starting_at(10, MINUTE, 500);
    assert_eq!(l.rate(), 10);
    assert_eq!(l.unit(), 60_000_000_000);
    assert_eq!(l.max(), 600_000_000_000);
    assert_eq!(l.allowance(), 600_000_000_000);
    assert_eq!(l.last_check(), 500);
}

#[test]
fn default_unit_is_one_second() {
    assert_eq!(NANOS_PER_SECOND, 1_000_000_000);
    assert_eq!(Limiter::starting_at(1, 0, 0).unit(), 1_000_000_000);
    assert_eq!(Limiter::starting_at(1, -1, 0).unit(), 1_000_000_000);
    assert_eq!(Limiter::starting_at(1, i64::MIN, 0).unit(), 1_000_000_000);
    assert_eq!(Limiter::starting_at(1, 1, 0).unit(), 1);
}

#[test]
fn rate_is_at_least_one() {
    assert_eq!(Limiter::starting_at(0, 5, 0).rate(), 1);
    assert_eq!(Limiter::starting_at(-1, 5, 0).rate(), 1);
    assert_eq!(Limiter::starting_at(i64::MIN, 5, 0).max(), 5);
    assert_eq!(Limiter::starting_at(1, 5, 0).rate(), 1);
    assert_eq!(Limiter::starting_at(2, 5, 0).max(), 10);
}

#[test]
fn exact_quota_at_one_instant() {
    let mut l = Limiter::starting_at(10, MINUTE, 1_000);
    for call in 0..10 {
        assert_eq!(l.limit_at(1_000), false, "call {}", call);
    }
    assert_eq!(l.limit_at(1_000), true);
    assert_eq!(l.limit_at(1_000), true);
    assert_eq!(l.allowance(), 0);
}

#[test]
fn exact_quota_while_less_than_a_token_accrues() {
    // Ten per minute: a token takes six seconds. The burst takes five.
    let mut l = Limiter::starting_at(10, MINUTE, 0);
    let mut now = 77;
    for call in 0..10 {
        assert_eq!(l.limit_at(now), false, "call {}", call);
        now += 500_000_000;
    }
    assert_eq!(now, 5_000_000_077);
    assert_eq!(l.limit_at(now), true);
    assert_eq!(l.allowance(), 50_000_000_000);
    assert_eq!(l.last_check(), 5_000_000_077);
}

#[test]
fn limit_takes_one_unit() {
    let mut l = Limiter::starting_at(3, 100, 0);
    assert_eq!(l.allowance(), 300);
    assert!(!l.limit_at(0));
    assert_eq!(l.allowance(), 200);
    assert!(!l.limit_at(0));
    assert_eq!(l.allowance(), 100);
    assert!(!l.limit_at(0));
    assert_eq!(l.allowance(), 0);
    assert!(l.limit_at(0));
    assert_eq!(l.allowance(), 0);
}

#[test]
fn time_accrues_at_the_rate() {
    let mut l = Limiter::starting_at(3, 100, 0);
    assert_eq!(burst(&mut l, 0, 5), 3);
    // 20 ns at 3 per ns: 60 of the 100 that a token costs.
    assert!(l.limit_at(20));
    assert_eq!(l.allowance(), 60);
    assert_eq!(l.last_check(), 20);
    // 13 ns more: 99.
    assert!(l.limit_at(33));
    assert_eq!(l.allowance(), 99);
    // One more: 102, of which 100 are paid.
    assert!(!l.limit_at(34));
    assert_eq!(l.allowance(), 2);
    assert_eq!(l.last_check(), 34);
}

#[test]
fn replenished_after_one_tokens_worth_of_time() {
    // 25 per 50 ms: one token every 2 ms.
    let mut l = Limiter::starting_at(25, 50_000_000, 1_000);
    assert_eq!(burst(&mut l, 1_000, 25), 25);
    assert!(l.limit_at(1_000));
    assert!(l.limit_at(1_000 + 1_999_999));
    let mut m = Limiter::starting_at(25, 50_000_000, 1_000);
    assert_eq!(burst(&mut m, 1_000, 26), 25);
    assert!(!m.limit_at(1_000 + 2_000_000));
    assert_eq!(m.allowance(), 0);
}

#[test]
fn whole_units_of_waiting_can_fall_short_of_a_token() {
    // Three per 10 ns: 3 ns bring 9 of the 10 that a token costs, 4 ns bring 12.
    let mut l = Limiter::starting_at(3, 10, 0);
    assert_eq!(burst(&mut l, 0, 4), 3);
    assert!(l.limit_at(3));
    assert_eq!(l.allowance(), 9);
    let mut m = Limiter::starting_at(3, 10, 0);
    assert_eq!(burst(&mut m, 0, 4), 3);
    assert!(!m.limit_at(4));
    assert_eq!(m.allowance(), 2);
}

#[test]
fn ten_milliseconds_refill_a_fifty_millisecond_budget() {
    let mut l = Limiter::starting_at(25, 50_000_000, 0);
    for call in 0..25 {
        assert_eq!(l.limit_at(0), false, "on cycle {}", call);
    }
    assert_eq!(l.limit_at(0), true);
    assert_eq!(l.limit_at(10_000_000), false);
    // Five tokens came, one was taken.
    assert_eq!(l.allowance(), 4 * 50_000_000);
}

#[test]
fn allowance_is_cut_at_the_ceiling() {
    let mut l = Limiter::starting_at(2, 10, 0);
    assert!(!l.limit_at(1_000_000));
    assert_eq!(l.allowance(), 10);
    assert!(!l.limit_at(u64::MAX));
    assert_eq!(l.allowance(), 10);
    assert_eq!(l.last_check(), u64::MAX);
}

#[test]
fn a_clock_that_goes_backwards_brings_nothing() {
    let mut l = Limiter::starting_at(1, 10, 1_000);
    assert!(!l.limit_at(1_000));
    assert!(l.limit_at(400));
    assert_eq!(l.allowance(), 0);
    assert_eq!(l.last_check(), 400);
    assert!(l.limit_at(0));
    assert_eq!(l.allowance(), 0);
    assert_eq!(l.last_check(), 0);
    assert!(!l.limit_at(10));
}

#[test]
fn a_clock_that_goes_back_and_forth_brings_the_same_time_again() {
    // One per 10 ns, at readings 0, 10, 0, 10: the stretch from 0 to 10 is
    // paid out twice, so three calls pass where a steady clock allows two.
    let mut l = Limiter::starting_at(1, 10, 0);
    assert!(!l.limit_at(0));
    assert!(!l.limit_at(10));
    assert!(l.limit_at(0));
    assert_eq!(l.last_check(), 0);
    assert!(!l.limit_at(10));
    let mut steady = Limiter::starting_at(1, 10, 0);
    let mut passed = 0;
    for now in [0, 10, 10, 10] {
        if !steady.limit_at(now) {
            passed += 1;
        }
    }
    assert_eq!(passed, 2);
}

#[test]
fn undo_gives_the_token_back() {
    let mut l = Limiter::starting_at(3, 100, 0);
    assert!(!l.limit_at(0));
    assert!(!l.limit_at(0));
    assert_eq!(l.allowance(), 100);
    l.undo();
    assert_eq!(l.allowance(), 200);
    assert_eq!(l.last_check(), 0);
    assert_eq!(burst(&mut l, 0, 5), 2);
}

#[test]
fn undo_at_the_ceiling_gains_nothing() {
    let mut l = Limiter::starting_at(3, 100, 0);
    l.undo();
    assert_eq!(l.allowance(), 300);
    l.undo();
    l.undo();
    assert_eq!(l.allowance(), 300);
    assert_eq!(burst(&mut l, 0, 10), 3);
}

#[test]
fn undo_may_overshoot_until_the_next_limit() {
    let mut l = Limiter::starting_at(2, 100, 0);
    assert!(!l.limit_at(0));
    assert!(l.limit_at(30) == false);
    // 160 were there at 30, 100 were paid twice over the two calls.
    assert_eq!(l.allowance(), 60);
    l.undo();
    assert_eq!(l.allowance(), 160);
    l.undo();
    assert_eq!(l.allowance(), 260);
    l.undo();
    assert_eq!(l.allowance(), 200);
    l.undo();
    assert_eq!(l.allowance(), 200);
}

#[test]
fn overshoot_is_cut_by_the_next_limit() {
    let mut l = Limiter::starting_at(2, 100, 0);
    assert!(!l.limit_at(0));
    assert!(!l.limit_at(30));
    l.undo();
    l.undo();
    assert_eq!(l.allowance(), 260);
    assert!(l.allowance() > l.max());
    assert!(!l.limit_at(30));
    assert_eq!(l.allowance(), 100);
    assert!(l.allowance() <= l.max());
}

#[test]
fn undo_without_a_limit_credits_a_token() {
    let mut l = Limiter::starting_at(1, 10, 0);
    assert!(!l.limit_at(0));
    assert!(l.limit_at(0));
    l.undo();
    assert_eq!(l.allowance(), 10);
    assert!(!l.limit_at(0));
}

#[test]
fn limit_undone_leaves_no_trace() {
    let mut with = Limiter::starting_at(5, 1_000, 0);
    let mut without = Limiter::starting_at(5, 1_000, 0);
    assert_eq!(burst(&mut with, 0, 3), 3);
    assert_eq!(burst(&mut without, 0, 3), 3);
    let before = with.allowance();
    assert!(!with.limit_at(0));
    with.undo();
    assert_eq!(with.allowance(), before);
    for now in [0, 50, 199, 200, 350, 900, 5_000] {
        assert_eq!(with.limit_at(now), without.limit_at(now));
        assert_eq!(with.allowance(), without.allowance());
        assert_eq!(with.last_check(), without.last_check());
    }
}

#[test]
fn update_rate_sets_rate_and_ceiling() {
    let mut l = Limiter::starting_at(10, 1_000, 7);
    l.update_rate(4);
    assert_eq!(l.rate(), 4);
    assert_eq!(l.max(), 4_000);
    assert_eq!(l.unit(), 1_000);
    assert_eq!(l.allowance(), 10_000);
    assert_eq!(l.last_check(), 7);
}

#[test]
fn update_rate_below_one_counts_as_one() {
    let mut l = Limiter::starting_at(10, 1_000, 0);
    l.update_rate(0);
    assert_eq!(l.rate(), 1);
    assert_eq!(l.max(), 1_000);
    l.update_rate(-5);
    assert_eq!(l.rate(), 1);
    l.update_rate(i64::MIN);
    assert_eq!(l.max(), 1_000);
}

#[test]
fn lower_rate_shows_in_the_next_burst() {
    let mut l = Limiter::starting_at(10, 1_000, 0);
    l.update_rate(4);
    assert_eq!(burst(&mut l, 0, 20), 4);
    assert_eq!(l.allowance(), 0);
}

#[test]
fn higher_rate_shows_once_the_budget_has_filled() {
    let mut l = Limiter::starting_at(2, 1_000, 0);
    l.update_rate(5);
    assert_eq!(l.max(), 5_000);
    // Only what was banked is there at first.
    assert_eq!(burst(&mut l, 0, 20), 2);
    // 1000 ns at 5 per ns fill it.
    assert_eq!(burst(&mut l, 1_000, 20), 5);
    assert_eq!(burst(&mut l, 1_000, 20), 0);
}

#[test]
fn new_rate_governs_accrual() {
    let mut l = Limiter::starting_at(1, 100, 0);
    assert_eq!(burst(&mut l, 0, 2), 1);
    l.update_rate(10);
    assert!(l.limit_at(9));
    assert_eq!(l.allowance(), 90);
    assert!(!l.limit_at(10));
    assert_eq!(l.allowance(), 0);
}

#[test]
fn passes_stay_within_ceiling_and_accrual() {
    let rate = 7;
    let unit = 1_000;
    let mut l = Limiter::starting_at(rate, unit, 0);
    let mut now: u64 = 5;
    let first = now;
    let mut passed: u64 = 0;
    let mut step: u64 = 1;
    for _ in 0..2_000 {
        if !l.limit_at(now) {
            passed += 1;
        }
        assert!(l.allowance() <= l.max());
        let gained = (now - first) * rate as u64;
        assert!(passed * unit as u64 + l.allowance() as u64 <= l.max() as u64 + gained);
        assert!(passed <= rate as u64 + gained / unit as u64);
        step = (step * 31 + 7) % 400;
        now += step;
    }
    assert!(passed > rate as u64);
}

#[test]
fn widest_limiter_does_not_overflow() {
    let mut l = Limiter::starting_at(i64::MAX, i64::MAX, 0);
    let widest = i64::MAX as u128;
    assert_eq!(l.max(), widest * widest);
    assert_eq!(l.allowance(), widest * widest);
    assert!(!l.limit_at(u64::MAX));
    assert_eq!(l.allowance(), widest * widest - widest);
    l.undo();
    assert_eq!(l.allowance(), widest * widest);
    l.update_rate(1);
    l.undo();
    assert_eq!(l.allowance(), widest);
    assert!(!l.limit_at(0));
    assert_eq!(l.allowance(), 0);
    l.update_rate(i64::MAX);
    assert!(!l.limit_at(u64::MAX));
    assert_eq!(l.allowance(), widest * widest - widest);
}

#[test]
fn banked_allowance_survives_a_lower_rate_until_limit() {
    let mut l = Limiter::starting_at(i64::MAX, i64::MAX, 0);
    l.update_rate(1);
    let widest = i64::MAX as u128;
    assert_eq!(l.allowance(), widest * widest);
    assert_eq!(l.max(), widest);
    assert!(!l.limit_at(u64::MAX));
    assert_eq!(l.allowance(), 0);
}

#[test]
fn clock_reading_takes_what_is_there() {
    assert_eq!(clock_reading(Some(5), 9), 5);
    assert_eq!(clock_reading(Some(0), 9), 0);
    assert_eq!(clock_reading(Some(i64::MAX), 9), i64::MAX as u64);
}

#[test]
fn clock_reading_falls_back() {
    assert_eq!(clock_reading(None, 9), 9);
    assert_eq!(clock_reading(Some(-1), 9), 9);
    assert_eq!(clock_reading(Some(i64::MIN), u64::MAX), u64::MAX);
}

#[test]
fn period_nanos_counts_what_chrono_counts() {
    assert_eq!(period_nanos(Some(MINUTE)), MINUTE);
    assert_eq!(period_nanos(Some(-12)), -12);
    assert_eq!(period_nanos(Some(0)), 0);
    assert_eq!(period_nanos(None), 0);
    assert_eq!(period_nanos(chrono::Duration::minutes(1).num_nanoseconds()), MINUTE);
    assert_eq!(period_nanos(chrono::Duration::MAX.num_nanoseconds()), 0);
}
