use blockd_core::engine::keyed_queue::KeyedQueue;

#[test]
fn serializes_each_key_without_hash_collision_blocking() {
    let mut queue = KeyedQueue::new();
    queue.push(1, "first");
    queue.push(1, "second");
    queue.push(17, "independent");

    assert_eq!(queue.start_next(2), Some((1, "first")));
    assert_eq!(queue.start_next(2), Some((17, "independent")));
    assert_eq!(queue.start_next(2), None);
    queue.complete(1);
    assert_eq!(queue.start_next(2), Some((1, "second")));
    queue.complete(17);
    queue.complete(1);
    assert!(queue.is_idle());
}

#[test]
fn rotates_ready_keys_fairly() {
    let mut queue = KeyedQueue::new();
    queue.push(1, "a");
    queue.push(1, "b");
    queue.push(2, "c");

    assert_eq!(queue.start_next(1), Some((1, "a")));
    queue.complete(1);
    assert_eq!(queue.start_next(1), Some((2, "c")));
    queue.complete(2);
    assert_eq!(queue.start_next(1), Some((1, "b")));
}

#[test]
fn exposes_active_and_pending_keys_for_protocol_coalescing() {
    let mut queue = KeyedQueue::new();
    queue.push(1, "first");
    assert!(queue.contains_key(1));
    assert_eq!(queue.start_next(1), Some((1, "first")));
    assert!(queue.contains_key(1));
    queue.complete(1);
    assert!(!queue.contains_key(1));
}

#[test]
fn removes_cancelled_pending_work_without_disturbing_the_active_key() {
    let mut queue = KeyedQueue::new();
    queue.push(1, (1, "active"));
    queue.push(1, (2, "cancelled"));
    assert_eq!(queue.start_next(1), Some((1, (1, "active"))));
    assert_eq!(queue.remove_where(1, |(id, _)| *id == 2), Some((2, "cancelled")));
    queue.complete(1);
    assert!(queue.is_idle());
}

#[test]
fn counts_what_has_not_started() {
    let mut queue = KeyedQueue::new();
    assert!(queue.is_idle());
    queue.push(4, 'x');
    queue.push(4, 'y');
    queue.push(5, 'z');
    assert_eq!(queue.pending_len(), 3);
    assert_eq!(queue.start_next(8), Some((4, 'x')));
    assert_eq!(queue.pending_len(), 2);
    assert_eq!(queue.remove_where(4, |c| *c == 'q'), None);
    assert_eq!(queue.remove_where(5, |c| *c == 'z'), Some('z'));
    assert_eq!(queue.pending_len(), 1);
    assert_eq!(queue.start_next(8), None);
    queue.complete(4);
    assert_eq!(queue.start_next(8), Some((4, 'y')));
}
