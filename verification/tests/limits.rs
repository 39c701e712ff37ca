//! Cross-controller tests: the limit always stays within its range.

use squeeze::limits::{Aimd, Fixed, Gradient, LimitAlgorithm, Vegas};
use squeeze::{Outcome, Sample};

fn mixed_samples() -> Vec<Sample> {
    let mut samples = Vec::new();
    for i in 0u64..200 {
        let latency_ns = 1 + (i * 7_919_731) % 400_000_000;
        let in_flight = ((i * 13) % 50) as usize;
        let outcome = if i % 5 == 0 {
            Outcome::Overload
        } else {
            Outcome::Success
        };
        samples.push(Sample::new(latency_ns, in_flight, outcome));
    }
    samples
}

#[test]
fn aimd_limit_stays_within_range() {
    let mut aimd = Aimd::new(10, 2, 50);
    for s in mixed_samples() {
        let limit = aimd.update(s);
        assert!((2..=50).contains(&limit));
    }
}

#[test]
fn gradient_limit_stays_within_range() {
    let mut gradient = Gradient::new(10, 2, 50);
    for s in mixed_samples() {
        let limit = gradient.update(s);
        assert!((2..=50).contains(&limit));
    }
}

#[test]
fn vegas_limit_stays_within_range() {
    let mut vegas = Vegas::new_with_initial_limit(10);
    for s in mixed_samples() {
        let limit = vegas.update(s);
        assert!((1..=1000).contains(&limit));
    }
}

#[test]
fn fixed_limit_never_changes() {
    let mut fixed = Fixed::new(17);
    for s in mixed_samples() {
        assert_eq!(fixed.update(s), 17);
    }
    assert_eq!(fixed.limit(), 17);
}
