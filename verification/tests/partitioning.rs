//! Tests for the partitioned limiter.

use squeeze::limiter::WaiterQueue;
use squeeze::limits::Fixed;
use squeeze::{create_static_partitions, Outcome};

#[test]
fn partitioning_todo() {
    // Weights 2, 2 and 4 over a fixed total limit of 10: shares of 25%,
    // 25% and 50%, rounded up.
    let mut partitioned = create_static_partitions(Fixed::new(10), vec![2, 2, 4]);

    assert_eq!(partitioned.partition_count(), 3);
    assert_eq!(partitioned.partition_limit(0), 3);
    assert_eq!(partitioned.partition_limit(1), 3);
    assert_eq!(partitioned.partition_limit(2), 5);

    let token = partitioned.try_acquire(2).unwrap();
    assert_eq!(partitioned.partition_in_flight(2), 1);
    assert_eq!(partitioned.state().in_flight(), 1);

    let limit = partitioned.release(token, Some(Outcome::Success));
    assert_eq!(limit, 10);
    assert_eq!(partitioned.partition_in_flight(2), 0);
    assert_eq!(partitioned.state().in_flight(), 0);
}

#[test]
fn partitions_can_borrow_spare_capacity() {
    // Two equal partitions over a fixed limit of 10: each owns a share of
    // five, with a buffer of one reserved for the owner.
    let mut partitioned = create_static_partitions(Fixed::new(10), vec![1, 1]);
    assert_eq!(partitioned.partition_limit(0), 5);

    // Fill partition 0 to its own share.
    let mut tokens = Vec::new();
    for _ in 0..5 {
        tokens.push(partitioned.try_acquire(0).unwrap());
    }
    assert_eq!(partitioned.partition_in_flight(0), 5);

    // Partition 1 is idle, so its spare (5 - 0 - 1 = 4) lets partition 0
    // borrow beyond its share.
    tokens.push(partitioned.try_acquire(0).unwrap());
    assert_eq!(partitioned.partition_in_flight(0), 6);

    for token in tokens {
        partitioned.release(token, None);
    }
    assert_eq!(partitioned.partition_in_flight(0), 0);
    assert_eq!(partitioned.state().available(), 10);
}

#[test]
fn exhausted_spare_rejects_borrowing() {
    // One partition with the whole weight: its share is the whole limit and
    // the buffer keeps the spare below the share.
    let mut partitioned = create_static_partitions(Fixed::new(2), vec![1]);
    assert_eq!(partitioned.partition_limit(0), 2);

    let _a = partitioned.try_acquire(0).unwrap();
    let _b = partitioned.try_acquire(0).unwrap();

    // At its share and no spare anywhere: rejected.
    assert!(partitioned.try_acquire(0).is_none());
}

#[test]
fn waiters_are_woken_oldest_first() {
    let mut queue = WaiterQueue::new();
    queue.enqueue(7, 0);
    queue.enqueue(8, 1);
    queue.enqueue(9, 0);
    assert_eq!(queue.len(), 3);

    // A timed-out caller leaves by its ticket; the others keep their order.
    queue.remove_ticket(8);
    assert_eq!(queue.len(), 2);

    assert_eq!(queue.pop_oldest(), Some((7, 0)));
    assert_eq!(queue.pop_oldest(), Some((9, 0)));
    assert_eq!(queue.pop_oldest(), None);

    // Removing an absent ticket changes nothing.
    queue.remove_ticket(42);
    assert_eq!(queue.len(), 0);
}
