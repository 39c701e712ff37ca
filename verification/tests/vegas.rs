//! Tests for the Vegas controller behind a limiter.

use std::collections::VecDeque;

use squeeze::aggregation::Percentile;
use squeeze::limits::{Vegas, Windowed};
use squeeze::{DefaultLimiter, Outcome};

const MS: u64 = 1_000_000;

#[test]
fn vegas_it_works() {
    let init_limit: usize = 10;
    let vegas = Vegas::new_with_initial_limit(init_limit);

    let mut limiter = DefaultLimiter::new(vegas);

    // Warm up: concurrency = 5, steady latency.
    let mut tokens = Vec::with_capacity(5);
    for _ in 0..5 {
        let token = limiter.try_acquire().unwrap();
        tokens.push(token);
    }
    for mut token in tokens {
        token.set_latency(25 * MS);
        limiter.release(token, Some(Outcome::Success));
    }

    // Concurrency = 9, steady latency.
    let mut tokens = Vec::with_capacity(9);
    for _ in 0..9 {
        let token = limiter.try_acquire().unwrap();
        tokens.push(token);
    }
    for mut token in tokens {
        token.set_latency(25 * MS);
        limiter.release(token, Some(Outcome::Success));
    }
    let higher_limit = limiter.limit();
    assert!(
        higher_limit > init_limit,
        "Steady latency + high concurrency => increase limit"
    );

    // Concurrency = 10, 10x previous latency.
    let mut tokens = Vec::with_capacity(10);
    for _ in 0..10 {
        let mut token = limiter.try_acquire().unwrap();
        token.set_latency(250 * MS);
        tokens.push(token);
    }
    for token in tokens {
        limiter.release(token, Some(Outcome::Success));
    }
    assert!(
        limiter.limit() < higher_limit,
        "Increased latency => decrease limit"
    );
}

#[test]
fn windowed() {
    let init_limit: usize = 10;
    let vegas = Windowed::new(Vegas::new_with_initial_limit(init_limit), Percentile::default())
        .with_min_window(0)
        .with_max_window(0)
        .with_min_samples(3);

    let mut limiter = DefaultLimiter::new(vegas);

    let mut next_tokens = VecDeque::with_capacity(9);

    // Warm up: steady latency, keeping concurrency high.
    for _ in 0..9 {
        let token = limiter.try_acquire().unwrap();
        next_tokens.push_back(token);
    }

    let release_tokens: Vec<_> = next_tokens.drain(0..).collect();
    for mut token in release_tokens {
        token.set_latency(25 * MS);
        limiter.release(token, Some(Outcome::Success));

        let token = limiter.try_acquire().unwrap();
        next_tokens.push_back(token);
    }

    // Steady latency.
    let release_tokens: Vec<_> = next_tokens.drain(0..).collect();
    for mut token in release_tokens {
        token.set_latency(25 * MS);
        limiter.release(token, Some(Outcome::Success));

        let token = limiter.try_acquire().unwrap();
        next_tokens.push_back(token);
    }

    let higher_limit = limiter.limit();
    assert!(
        higher_limit > init_limit,
        "Steady latency + high concurrency => increase limit. Limit: {}",
        higher_limit
    );

    // 40x previous latency.
    let release_tokens: Vec<_> = next_tokens.drain(0..).collect();
    for mut token in release_tokens {
        token.set_latency(1000 * MS);
        limiter.release(token, Some(Outcome::Success));

        let token = limiter.try_acquire().unwrap();
        next_tokens.push_back(token);
    }

    let lower_limit = limiter.limit();
    assert!(
        lower_limit < higher_limit,
        "Increased latency => decrease limit. Limit: {}",
        lower_limit
    );
}
