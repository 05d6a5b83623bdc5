use usr_backend::Batcher;

#[test]
fn coalescing_keeps_last_message() {
    let mut b = Batcher::new(300, 2000, "\n".to_string());
    b.enqueue(1, "m1".to_string(), 0);
    b.enqueue(1, "m2".to_string(), 1);
    b.enqueue(1, "m3".to_string(), 2);
    let (_, generation) = b.snapshot().unwrap();
    let batch = b.try_drain(generation).unwrap();
    assert_eq!(batch.len(), 1);
    assert_eq!(batch[0].0, 1);
    assert_eq!(batch[0].1, "m3");
}

#[test]
fn single_flight_trigger() {
    let mut b = Batcher::new(300, 2000, "\n".to_string());
    assert!(b.enqueue(1, "a".to_string(), 0));
    assert!(!b.enqueue(2, "b".to_string(), 1));
    assert!(!b.enqueue(1, "c".to_string(), 2));
}

#[test]
fn deadline_extension() {
    // enqueue at t=0 and again at t=4min: one flush, at t=9min, sending "B"
    let mut b = Batcher::new(300, 2000, "\n".to_string());
    assert!(b.enqueue(1, "A".to_string(), 0));
    let (first_deadline, first_generation) = b.snapshot().unwrap();
    assert_eq!(first_deadline, 300);
    assert!(!b.enqueue(1, "B".to_string(), 240));
    // the worker wakes at t=300 with its stale snapshot: no drain
    assert!(b.try_drain(first_generation).is_none());
    let (second_deadline, second_generation) = b.snapshot().unwrap();
    assert_eq!(second_deadline, 540);
    // the worker wakes again at t=540: exactly one flush, with "B" alone
    let batch = b.try_drain(second_generation).unwrap();
    assert_eq!(batch.len(), 1);
    assert_eq!(batch[0], (1, "B".to_string()));
    assert!(b.finish_cycle());
    assert!(b.snapshot().is_none());
}

#[test]
fn quiescence_after_drain() {
    let mut b = Batcher::new(300, 2000, "\n".to_string());
    assert!(b.enqueue(7, "hello".to_string(), 10));
    let (_, generation) = b.snapshot().unwrap();
    let batch = b.try_drain(generation).unwrap();
    assert_eq!(batch.len(), 1);
    assert!(b.finish_cycle());
    assert!(b.snapshot().is_none());
    // the very next enqueue starts a new flush worker
    assert!(b.enqueue(8, "again".to_string(), 400));
}

#[test]
fn liveness_under_late_arrival() {
    let mut b = Batcher::new(300, 2000, "\n".to_string());
    assert!(b.enqueue(1, "A".to_string(), 0));
    let (_, generation) = b.snapshot().unwrap();
    let batch = b.try_drain(generation).unwrap();
    assert_eq!(batch[0].1, "A");
    // a new enqueue lands after the swap, while the worker is sending
    assert!(!b.enqueue(2, "B".to_string(), 250));
    // the post-send check must keep the worker alive
    assert!(!b.finish_cycle());
    let (_, next_generation) = b.snapshot().unwrap();
    let late = b.try_drain(next_generation).unwrap();
    assert_eq!(late.len(), 1);
    assert_eq!(late[0], (2, "B".to_string()));
    assert!(b.finish_cycle());
}

#[test]
fn revise_replaces_pending_entry() {
    let mut b = Batcher::new(300, 2000, "\n".to_string());
    b.enqueue(5, "old text".to_string(), 0);
    let (deadline_before, generation_before) = b.snapshot().unwrap();
    assert!(b.revise(5, "new text".to_string()));
    // neither the deadline nor the generation moved
    assert_eq!(b.snapshot().unwrap(), (deadline_before, generation_before));
    let batch = b.try_drain(generation_before).unwrap();
    assert_eq!(batch, vec![(5, "new text".to_string())]);
}

#[test]
fn revise_without_pending_entry_changes_nothing() {
    let mut b = Batcher::new(300, 2000, "\n".to_string());
    b.enqueue(5, "kept".to_string(), 0);
    assert!(!b.revise(6, "direct".to_string()));
    let (_, generation) = b.snapshot().unwrap();
    let batch = b.try_drain(generation).unwrap();
    assert_eq!(batch, vec![(5, "kept".to_string())]);
}

#[test]
fn stale_drain_leaves_queue_intact() {
    let mut b = Batcher::new(300, 2000, "\n".to_string());
    b.enqueue(1, "one".to_string(), 0);
    let (_, generation) = b.snapshot().unwrap();
    b.enqueue(2, "two".to_string(), 1);
    assert!(b.try_drain(generation).is_none());
    let (_, fresh) = b.snapshot().unwrap();
    let batch = b.try_drain(fresh).unwrap();
    assert_eq!(batch.len(), 2);
    assert!(b.finish_cycle());
}

#[test]
fn finish_on_empty_queue_only() {
    let mut b = Batcher::new(300, 2000, "\n".to_string());
    b.enqueue(1, "x".to_string(), 0);
    assert!(!b.finish_cycle());
    let (_, generation) = b.snapshot().unwrap();
    b.try_drain(generation).unwrap();
    assert!(b.finish_cycle());
}

#[test]
fn default_configuration() {
    let mut b = Batcher::default();
    assert!(b.enqueue(1, "hi".to_string(), 0));
    let (deadline, _) = b.snapshot().unwrap();
    assert_eq!(deadline, 300);
}
