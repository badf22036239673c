//! The bounded buffer.

use droidlog::ring::{RingBuffer, DEFAULT_CAPACITY};

#[test]
fn zero_capacity_is_clamped_to_one() {
    let ring: RingBuffer<u8> = RingBuffer::new(0);
    assert_eq!(ring.capacity(), 1);
}

#[test]
fn items_are_retained_in_order() {
    let mut ring = RingBuffer::new(4);
    for value in 1..=3 {
        assert!(!ring.push(value), "no eviction expected below capacity");
    }
    assert_eq!(ring.snapshot(), vec![1, 2, 3]);
    assert_eq!(ring.len(), 3);
    assert!(!ring.is_empty());
}

#[test]
fn oldest_items_are_evicted_first() {
    let mut ring = RingBuffer::new(3);
    for value in 1..=5 {
        ring.push(value);
    }
    assert_eq!(ring.snapshot(), vec![3, 4, 5]);
    assert_eq!(ring.last(), Some(&5));
}

#[test]
fn eviction_and_push_are_counted() {
    let mut ring = RingBuffer::new(2);
    ring.push(1);
    ring.push(2);
    assert!(ring.push(3), "third push must report an eviction");

    let stats = ring.stats();
    assert_eq!(stats.total_pushed, 3);
    assert_eq!(stats.total_dropped, 1);
    assert_eq!(stats.len, 2);
    assert_eq!(stats.capacity, 2);
}

#[test]
fn clear_keeps_lifetime_counters() {
    let mut ring = RingBuffer::new(2);
    ring.push(1);
    ring.push(2);
    ring.push(3);
    ring.clear();

    assert!(ring.is_empty());
    let stats = ring.stats();
    assert_eq!(stats.total_pushed, 3);
    assert_eq!(stats.total_dropped, 1);
    assert_eq!(stats.len, 0);
}

#[test]
fn drain_empties_and_returns_in_order() {
    let mut ring = RingBuffer::new(4);
    for value in 1..=3 {
        ring.push(value);
    }
    assert_eq!(ring.drain(), vec![1, 2, 3]);
    assert!(ring.is_empty());
    assert!(ring.drain().is_empty());
}

#[test]
fn iter_walks_oldest_to_newest() {
    let mut ring = RingBuffer::new(3);
    for value in 1..=4 {
        ring.push(value);
    }
    let collected: Vec<i32> = ring.iter().copied().collect();
    assert_eq!(collected, vec![2, 3, 4]);
}

#[test]
fn default_capacity_is_documented_value() {
    let ring: RingBuffer<u8> = RingBuffer::default();
    assert_eq!(ring.capacity(), DEFAULT_CAPACITY);
}
