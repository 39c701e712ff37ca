//! Tests for the gradient controller behind a limiter.

use squeeze::limits::{Gradient, LimitAlgorithm};
use squeeze::{DefaultLimiter, Outcome, Sample};

const MS: u64 = 1_000_000;

#[test]
fn gradient_it_works() {
    let init_limit: usize = 10;
    let gradient = Gradient::new_with_initial_limit(init_limit);

    let mut limiter = DefaultLimiter::new(gradient);

    // Concurrency = 10, steady latency.
    let mut tokens = Vec::with_capacity(10);
    for _ in 0..10 {
        let token = limiter.try_acquire().unwrap();
        tokens.push(token);
    }
    for mut token in tokens {
        token.set_latency(25 * MS);
        limiter.release(token, Some(Outcome::Success));
    }
    let higher_limit = limiter.limit();
    assert!(
        higher_limit > init_limit,
        "steady latency + high concurrency: increase limit"
    );

    // Concurrency = 10, 10x previous latency.
    let mut tokens = Vec::with_capacity(10);
    for _ in 0..10 {
        let mut token = limiter.try_acquire().unwrap();
        token.set_latency(250 * MS);
        tokens.push(token);
    }
    for token in tokens {
        limiter.release(token, Some(Outcome::Success));
    }
    assert!(
        limiter.limit() < higher_limit,
        "increased latency: decrease limit"
    );
}

#[test]
fn sub_microsecond_sample_keeps_prior_limit() {
    let mut gradient = Gradient::new_with_initial_limit(10);

    let limit = gradient.update(Sample::new(999, 10, Outcome::Success));
    assert_eq!(limit, 10, "below the latency floor: ignored");
    assert_eq!(gradient.limit(), 10);
}
