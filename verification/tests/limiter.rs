//! Tests for the permit gate.

use squeeze::limits::{Aimd, Fixed};
use squeeze::{DefaultLimiter, Outcome, RejectionDelay};

#[test]
fn limiter_it_works() {
    let mut limiter = DefaultLimiter::new(Fixed::new(10));

    let token = limiter.try_acquire().unwrap();

    limiter.release(token, Some(Outcome::Success));

    assert_eq!(limiter.limit(), 10);
}

#[test]
fn mod_it_works() {
    let mut limiter = DefaultLimiter::new(Fixed::new(10));

    let token = limiter.try_acquire().unwrap();

    limiter.release(token, Some(Outcome::Success));

    assert_eq!(limiter.limit(), 10);
}

#[test]
fn fixed_gate_balances_at_every_step() {
    let mut limiter = DefaultLimiter::new(Fixed::new(3));

    let check = |s: squeeze::LimiterState| {
        assert_eq!(s.available() + s.in_flight(), s.limit());
        assert!(s.in_flight() <= s.limit());
    };

    check(limiter.state());
    let a = limiter.try_acquire().unwrap();
    check(limiter.state());
    let b = limiter.try_acquire().unwrap();
    check(limiter.state());
    let c = limiter.try_acquire().unwrap();
    check(limiter.state());
    assert!(limiter.try_acquire().is_none(), "pool exhausted at the limit");
    check(limiter.state());
    limiter.release(b, Some(Outcome::Success));
    check(limiter.state());
    let d = limiter.try_acquire().unwrap();
    check(limiter.state());
    limiter.release(a, None);
    check(limiter.state());
    limiter.release(c, Some(Outcome::Overload));
    check(limiter.state());
    limiter.release(d, None);
    check(limiter.state());
    assert_eq!(limiter.state().in_flight(), 0);
    assert_eq!(limiter.state().available(), 3);
}

#[test]
fn shrink_below_in_flight_is_absorbed_by_live_tokens() {
    // Limit 4, three tokens out, then an overload halves the limit to 2:
    // the limiter owes one more permit than is available, and the debt is paid
    // as tokens return.
    let aimd = Aimd::new_with_initial_limit(4).decrease_factor(500);
    let mut limiter = DefaultLimiter::new(aimd);

    let mut a = limiter.try_acquire().unwrap();
    let b = limiter.try_acquire().unwrap();
    let c = limiter.try_acquire().unwrap();

    // The shrink of two absorbs the one available permit, and the releasing
    // token's own permit pays the rest of the debt.
    a.set_latency(1_000_000);
    limiter.release(a, Some(Outcome::Overload));
    assert_eq!(limiter.limit(), 2);
    // Two tokens still live against a limit of two: nothing available.
    assert_eq!(limiter.state().available(), 0);
    assert_eq!(limiter.state().in_flight(), 2);
    assert!(limiter.try_acquire().is_none());

    // Returning tokens become available again, up to the new limit.
    limiter.release(b, None);
    assert_eq!(limiter.state().available(), 1);
    assert_eq!(limiter.state().in_flight(), 1);

    limiter.release(c, None);
    assert_eq!(limiter.state().available(), 2);
    assert_eq!(limiter.state().in_flight(), 0);
}

#[test]
fn rejection_delay_is_exposed_to_the_embedder() {
    let limiter = DefaultLimiter::new(Fixed::new(1)).with_rejection_delay(50 * 1_000_000);
    assert_eq!(limiter.rejection_delay(), Some(50 * 1_000_000));

    let mut wrapped = RejectionDelay::new(5_000 * 1_000_000, DefaultLimiter::new(Fixed::new(1)));
    assert_eq!(wrapped.delay(), 5_000 * 1_000_000);

    let _token = wrapped.try_acquire().unwrap();
    assert!(wrapped.try_acquire().is_none(), "no capacity: rejected");
    assert_eq!(wrapped.limit(), 1);
}
