//! Tests for the windowed wrapper.

use squeeze::aggregation::Average;
use squeeze::limits::{LimitAlgorithm, Vegas, Windowed};
use squeeze::{Outcome, Sample};

const MS: u64 = 1_000_000;

#[test]
fn windowed_it_works() {
    let samples = 2;

    // Just test with a min sample size for now.
    let mut windowed_vegas = Windowed::new(Vegas::new_with_initial_limit(10), Average::default())
        .with_min_window(0)
        .with_max_window(0)
        .with_min_samples(samples);

    let mut limit = 0;

    for _ in 0..samples {
        limit = windowed_vegas.update(Sample::new(10 * MS, 1, Outcome::Success));
    }
    assert_eq!(limit, 10, "first window shouldn't change limit for Vegas");

    for _ in 0..samples {
        limit = windowed_vegas.update(Sample::new(100 * MS, 1, Outcome::Overload));
    }
    assert!(limit < 10, "limit should be reduced");
}

#[test]
fn sub_threshold_samples_never_roll_the_window() {
    let mut windowed = Windowed::new(Vegas::new_with_initial_limit(7), Average::default())
        .with_min_window(0)
        .with_max_window(0)
        .with_min_samples(1);

    // Below the one-microsecond floor: discarded, limit unchanged.
    let limit = windowed.update(Sample::new(999, 7, Outcome::Overload));
    assert_eq!(limit, 7);
    assert_eq!(windowed.limit(), 7);
}

#[test]
fn window_waits_for_the_clock() {
    let mut windowed = Windowed::new(Vegas::new_with_initial_limit(10), Average::default())
        .with_min_samples(1);

    // Default window bounds: the first window lasts a microsecond of
    // logical time, and the clock starts at zero, so nothing rolls yet.
    let limit = windowed.update(Sample::new(25 * MS, 10, Outcome::Overload));
    assert_eq!(limit, 10, "window not yet elapsed");

    // Once the clock passes the window, the aggregate reaches Vegas, which
    // first records its baseline latency and keeps the limit.
    windowed.advance_clock(2_000);
    let limit = windowed.update(Sample::new(25 * MS, 10, Outcome::Success));
    assert_eq!(limit, 10, "first Vegas observation only sets the baseline");

    // The next window is about twice the smallest latency seen (50 ms
    // here); an overloaded window then shrinks the limit.
    windowed.advance_clock(60 * MS);
    let limit = windowed.update(Sample::new(250 * MS, 10, Outcome::Overload));
    assert!(limit < 10, "rolled window forwards the overload");
}
