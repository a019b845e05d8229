use lamport_queue::lamport_queue::LamportQueue;

#[test]
fn fresh_queue_is_empty_and_open() {
    let (q, _consumer, _producer) = LamportQueue::<usize>::new(4);
    assert_eq!(q.len(), 0);
    assert_eq!(q.capacity(), 4);
    assert!(!q.closed());
}

#[test]
fn capacity_one_queue_works() {
    let (mut q, mut consumer, mut producer) = LamportQueue::<usize>::new(1);
    assert_eq!(q.capacity(), 1);
    assert!(producer.push(&mut q, 42));
    assert!(!producer.push(&mut q, 43));
    assert_eq!(consumer.pop(&mut q), Some(42));
    assert_eq!(consumer.pop(&mut q), None);
}

// Capacity 3: three pushes succeed, a fourth is refused while full, one pop
// frees a slot, the fourth push then succeeds, and draining hands back
// every value in push order.
#[test]
fn fill_refuse_free_and_drain_in_order() {
    let (mut q, mut consumer, mut producer) = LamportQueue::<usize>::new(3);
    assert!(producer.push(&mut q, 1));
    assert!(producer.push(&mut q, 2));
    assert!(producer.push(&mut q, 3));
    assert!(!producer.push(&mut q, 4));
    let mut received: Vec<usize> = Vec::new();
    received.push(consumer.pop(&mut q).unwrap());
    assert_eq!(received[0], 1);
    assert!(producer.push(&mut q, 4));
    let mut rest = consumer.drain(&mut q);
    received.append(&mut rest);
    assert_eq!(received, vec![1, 2, 3, 4]);
}

// Capacity 1: strict alternation; the length is 0 before each push and 1
// before each pop.
#[test]
fn alternating_push_pop_through_one_slot() {
    let (mut q, mut consumer, mut producer) = LamportQueue::<u8>::new(1);
    assert_eq!(q.len(), 0);
    assert!(producer.push(&mut q, b'A'));
    assert_eq!(q.len(), 1);
    assert_eq!(consumer.pop(&mut q), Some(b'A'));
    assert_eq!(q.len(), 0);
    assert!(producer.push(&mut q, b'B'));
    assert_eq!(q.len(), 1);
    assert_eq!(consumer.pop(&mut q), Some(b'B'));
    assert_eq!(q.len(), 0);
}

#[test]
fn len_never_exceeds_capacity() {
    let (mut q, mut consumer, mut producer) = LamportQueue::<usize>::new(2);
    for round in 0..10 {
        producer.push(&mut q, round);
        assert!(q.len() <= q.capacity());
    }
    for _ in 0..10 {
        consumer.pop(&mut q);
        assert!(q.len() <= q.capacity());
    }
}

#[test]
fn pop_on_empty_returns_none_and_changes_nothing() {
    let (mut q, mut consumer, mut producer) = LamportQueue::<usize>::new(2);
    assert_eq!(consumer.pop(&mut q), None);
    assert_eq!(q.len(), 0);
    assert!(producer.push(&mut q, 9));
    assert_eq!(consumer.pop(&mut q), Some(9));
    assert_eq!(consumer.pop(&mut q), None);
}

#[test]
fn push_on_full_returns_false_and_changes_nothing() {
    let (mut q, mut consumer, mut producer) = LamportQueue::<usize>::new(2);
    assert!(producer.push(&mut q, 1));
    assert!(producer.push(&mut q, 2));
    assert!(!producer.push(&mut q, 3));
    assert_eq!(q.len(), 2);
    assert_eq!(consumer.pop(&mut q), Some(1));
    assert_eq!(consumer.pop(&mut q), Some(2));
}

#[test]
fn close_is_idempotent_and_sticky() {
    let (mut q, mut consumer, mut producer) = LamportQueue::<usize>::new(2);
    assert!(!q.closed());
    q.close();
    assert!(q.closed());
    q.close();
    assert!(q.closed());
    // Closing is only an advisory signal: traffic still flows.
    assert!(producer.push(&mut q, 5));
    assert!(q.closed());
    assert_eq!(consumer.pop(&mut q), Some(5));
    assert!(q.closed());
}

// The canonical consumer exit condition: closed and drained.
#[test]
fn done_means_closed_and_empty() {
    let (mut q, mut consumer, mut producer) = LamportQueue::<usize>::new(2);
    assert!(producer.push(&mut q, 1));
    q.close();
    assert!(!(q.closed() && q.len() == 0));
    assert_eq!(consumer.pop(&mut q), Some(1));
    assert!(q.closed() && q.len() == 0);
}

#[test]
fn drain_on_empty_queue_is_empty() {
    let (mut q, mut consumer, _producer) = LamportQueue::<usize>::new(3);
    let out = consumer.drain(&mut q);
    assert!(out.is_empty());
    assert_eq!(q.len(), 0);
}

#[test]
fn drain_returns_pending_in_order() {
    let (mut q, mut consumer, mut producer) = LamportQueue::<usize>::new(5);
    for v in 10..14 {
        assert!(producer.push(&mut q, v));
    }
    let out = consumer.drain(&mut q);
    assert_eq!(out, vec![10, 11, 12, 13]);
    assert_eq!(q.len(), 0);
}

// The ring reuses slots: absolute position i lives in slot i % capacity.
#[test]
fn slots_are_reused_after_wraparound() {
    let (mut q, mut consumer, mut producer) = LamportQueue::<usize>::new(2);
    let mut received: Vec<usize> = Vec::new();
    for v in 0..7 {
        assert!(producer.push(&mut q, v));
        received.push(consumer.pop(&mut q).unwrap());
    }
    assert_eq!(received, vec![0, 1, 2, 3, 4, 5, 6]);
}
