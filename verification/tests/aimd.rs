//! Tests for the AIMD controller behind a limiter.
//!
//! Like every controller, AIMD ignores samples below the one-microsecond
//! latency floor, so each released token carries a realistic latency.

use squeeze::limits::Aimd;
use squeeze::{DefaultLimiter, Outcome};

const MS: u64 = 1_000_000;

#[test]
fn should_decrease_limit_on_overload() {
    let aimd = Aimd::new_with_initial_limit(10)
        .decrease_factor(500)
        .increase_by(1);

    let mut limiter = DefaultLimiter::new(aimd);

    let mut token = limiter.try_acquire().unwrap();
    token.set_latency(1 * MS);
    limiter.release(token, Some(Outcome::Overload));
    assert_eq!(limiter.limit(), 5, "overload: decrease");
}

#[test]
fn should_increase_limit_on_success_when_using_gt_util_threshold() {
    let aimd = Aimd::new_with_initial_limit(4)
        .decrease_factor(500)
        .increase_by(1)
        .with_min_utilisation_threshold(500);

    let mut limiter = DefaultLimiter::new(aimd);

    let mut token = limiter.try_acquire().unwrap();
    let _token = limiter.try_acquire().unwrap();
    let _token2 = limiter.try_acquire().unwrap();

    token.set_latency(1 * MS);
    limiter.release(token, Some(Outcome::Success));
    assert_eq!(limiter.limit(), 5, "success: increase");
}

#[test]
fn should_not_change_limit_on_success_when_using_lt_util_threshold() {
    let aimd = Aimd::new_with_initial_limit(4)
        .decrease_factor(500)
        .increase_by(1)
        .with_min_utilisation_threshold(500);

    let mut limiter = DefaultLimiter::new(aimd);

    let mut token = limiter.try_acquire().unwrap();

    token.set_latency(1 * MS);
    limiter.release(token, Some(Outcome::Success));
    assert_eq!(limiter.limit(), 4, "success: ignore when < half limit");
}

#[test]
fn should_not_change_limit_when_no_outcome() {
    let aimd = Aimd::new_with_initial_limit(10)
        .decrease_factor(500)
        .increase_by(1);

    let mut limiter = DefaultLimiter::new(aimd);

    let mut token = limiter.try_acquire().unwrap();
    token.set_latency(1 * MS);
    limiter.release(token, None);
    assert_eq!(limiter.limit(), 10, "ignore");
}

#[test]
fn should_increase_limit_on_success_when_using_gt_half_limit() {
    let aimd = Aimd::new_with_initial_limit(4)
        .decrease_factor(500)
        .increase_by(1)
        .with_min_utilisation_threshold(500);

    let mut limiter = DefaultLimiter::new(aimd);

    let mut token = limiter.try_acquire().unwrap();
    let _token = limiter.try_acquire().unwrap();
    let _token2 = limiter.try_acquire().unwrap();

    token.set_latency(1 * MS);
    limiter.release(token, Some(Outcome::Success));
    assert_eq!(limiter.limit(), 5, "success: increase");
}

#[test]
fn should_not_change_limit_on_success_when_using_lt_half_limit() {
    let aimd = Aimd::new_with_initial_limit(4)
        .decrease_factor(500)
        .increase_by(1)
        .with_min_utilisation_threshold(500);

    let mut limiter = DefaultLimiter::new(aimd);

    let mut token = limiter.try_acquire().unwrap();

    token.set_latency(1 * MS);
    limiter.release(token, Some(Outcome::Success));
    assert_eq!(limiter.limit(), 4, "success: ignore when < half limit");
}

#[test]
fn overload_at_min_limit_stays_at_min_limit() {
    let aimd = Aimd::new(1, 1, 100).decrease_factor(500);

    let mut limiter = DefaultLimiter::new(aimd);

    let mut token = limiter.try_acquire().unwrap();
    token.set_latency(1 * MS);
    limiter.release(token, Some(Outcome::Overload));
    assert_eq!(limiter.limit(), 1, "floor clamp at min_limit");
}

#[test]
fn aimd_sub_floor_sample_is_ignored() {
    let aimd = Aimd::new_with_initial_limit(10).decrease_factor(500);

    let mut limiter = DefaultLimiter::new(aimd);

    let mut token = limiter.try_acquire().unwrap();
    token.set_latency(999);
    limiter.release(token, Some(Outcome::Overload));
    assert_eq!(limiter.limit(), 10, "below the latency floor: ignored");
}
