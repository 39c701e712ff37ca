//! Tests for the sample aggregators.

use squeeze::aggregation::{Aggregator, Average, Percentile};
use squeeze::{Outcome, Sample};

const MS: u64 = 1_000_000;

#[test]
fn average() {
    let mut aggregator = Average::default();

    aggregator.sample(Sample::new(1 * MS, 1, Outcome::Success));
    aggregator.sample(Sample::new(3 * MS, 5, Outcome::Overload));
    let sample = aggregator.sample(Sample::new(5 * MS, 3, Outcome::Success));

    assert_eq!(sample, Sample::new(3 * MS, 3, Outcome::Overload));
}

#[test]
fn average_reset() {
    let mut aggregator = Average::default();

    aggregator.sample(Sample::new(1 * MS, 1, Outcome::Success));
    aggregator.reset();
    let sample = aggregator.sample(Sample::new(5 * MS, 3, Outcome::Success));

    assert_eq!(
        sample,
        Sample::new(5 * MS, 3, Outcome::Success),
        "should be equal to new sample after reset"
    );
}

#[test]
fn percentile_p01() {
    let mut aggregator = Percentile::new(10);

    aggregator.sample(Sample::new(3 * MS, 5, Outcome::Overload));
    aggregator.sample(Sample::new(1 * MS, 1, Outcome::Success));
    let sample = aggregator.sample(Sample::new(5 * MS, 3, Outcome::Success));

    assert_eq!(sample, Sample::new(1 * MS, 1, Outcome::Overload));
}

#[test]
fn percentile_p99() {
    let mut aggregator = Percentile::new(990);

    aggregator.sample(Sample::new(3 * MS, 5, Outcome::Overload));
    aggregator.sample(Sample::new(1 * MS, 1, Outcome::Success));
    let sample = aggregator.sample(Sample::new(5 * MS, 3, Outcome::Success));

    assert_eq!(sample, Sample::new(5 * MS, 3, Outcome::Overload));
}

#[test]
fn percentile_reset() {
    let mut aggregator = Percentile::new(990);

    aggregator.sample(Sample::new(1 * MS, 1, Outcome::Success));
    aggregator.reset();
    let sample = aggregator.sample(Sample::new(5 * MS, 3, Outcome::Success));

    assert_eq!(
        sample,
        Sample::new(5 * MS, 3, Outcome::Success),
        "should be equal to new sample after reset"
    );

    assert_eq!(
        aggregator.percentile_milli, 990,
        "percentile shouldn't change after reset"
    );
}

#[test]
fn percentile_ties_keep_arrival_order() {
    let mut aggregator = Percentile::new(500);

    aggregator.sample(Sample::new(2 * MS, 7, Outcome::Success));
    aggregator.sample(Sample::new(2 * MS, 8, Outcome::Success));
    let sample = aggregator.sample(Sample::new(2 * MS, 9, Outcome::Success));

    // ceil(3 * 0.5) = 2: the second-arrived sample of the tie group.
    assert_eq!(sample, Sample::new(2 * MS, 8, Outcome::Success));
}

#[test]
fn outcome_merge_is_pessimistic() {
    assert_eq!(
        Outcome::Success.overloaded_or(Outcome::Overload),
        Outcome::Overload
    );
    assert_eq!(
        Outcome::Overload.overloaded_or(Outcome::Success),
        Outcome::Overload
    );
    assert_eq!(
        Outcome::Success.overloaded_or(Outcome::Success),
        Outcome::Success
    );
    assert_eq!(
        Outcome::Overload.overloaded_or(Outcome::Overload),
        Outcome::Overload
    );
}
