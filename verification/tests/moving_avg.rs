//! Tests for the moving averages.

use squeeze::moving_avg::{ExpSmoothed, Simple};

#[test]
fn simple_mean_over_a_sliding_window() {
    let mut avg = Simple::new_with_window_size(3);

    assert_eq!(avg.sample(10), 10);
    assert_eq!(avg.sample(20), 15);
    assert_eq!(avg.sample(30), 20);
    // The window slides: 10 drops out.
    assert_eq!(avg.sample(40), 30);
    assert_eq!(avg.sample(50), 40);
}

#[test]
fn simple_mean_rounds_down() {
    let mut avg = Simple::new_with_window_size(4);

    avg.sample(1);
    assert_eq!(avg.sample(2), 1, "floor of 3/2");
}

#[test]
fn exp_smoothed_warms_up_with_the_arithmetic_mean() {
    let mut avg = ExpSmoothed::new_with_window_size(500);

    for i in 1..=10u64 {
        let v = avg.sample(i * 100);
        // Mean of 100, 200, ..., i*100 is (i + 1) * 50.
        assert_eq!(v, (i + 1) * 50);
    }
}

#[test]
fn exp_smoothed_moves_towards_new_samples() {
    let mut avg = ExpSmoothed::new_with_window_size(3);

    // Warm up with ten identical samples.
    let mut v = 0;
    for _ in 0..10 {
        v = avg.sample(1000);
    }
    assert_eq!(v, 1000);

    // Smoothing factor 2 / (3 + 1) = 1/2: halfway to each new sample.
    assert_eq!(avg.sample(2000), 1500);
    assert_eq!(avg.sample(2000), 1750);
    assert_eq!(avg.sample(750), 1250);

    avg.set(600);
    assert_eq!(avg.sample(800), 700);
}
