use bachelor::queue::bounded_queue::BoundedQueue;
use bachelor::queue::RecvEffect;

#[test]
fn send_recv_roundtrip() {
    let mut q = BoundedQueue::new(4);

    assert_eq!(q.try_send(1), Ok(()));
    assert_eq!(q.try_send(2), Ok(()));

    assert_eq!(q.try_recv(), Some((1, RecvEffect::NoChange)));
    assert_eq!(q.try_recv(), Some((2, RecvEffect::NoChange)));
    assert_eq!(q.try_recv(), None);
}

#[test]
fn bounded_queue_full_rejects_send() {
    let mut q = BoundedQueue::new(2);

    assert_eq!(q.try_send(1), Ok(()));
    assert_eq!(q.try_send(2), Ok(()));
    assert_eq!(q.try_send(3), Err(3));
}

#[test]
fn recv_frees_space() {
    let mut q = BoundedQueue::new(2);

    assert_eq!(q.try_send(1), Ok(()));
    assert_eq!(q.try_send(2), Ok(()));
    assert!(q.is_full());

    assert_eq!(q.try_recv(), Some((1, RecvEffect::Unblocked)));
    assert!(!q.is_full());
    assert_eq!(q.try_send(3), Ok(()));
}

#[test]
fn bounded_queue_capacity_one() {
    let mut q = BoundedQueue::new(1);

    assert_eq!(q.try_send(42), Ok(()));
    assert_eq!(q.try_send(43), Err(43));
    assert_eq!(q.try_recv(), Some((42, RecvEffect::Unblocked)));
    assert_eq!(q.try_send(43), Ok(()));
    assert_eq!(q.try_recv(), Some((43, RecvEffect::Unblocked)));
}

#[test]
fn len_is_empty_is_full() {
    let mut q = BoundedQueue::new(2);

    assert!(q.is_empty());
    assert!(!q.is_full());
    assert_eq!(q.len(), 0);

    q.try_send(1).unwrap();
    assert!(!q.is_empty());
    assert!(!q.is_full());
    assert_eq!(q.len(), 1);

    q.try_send(2).unwrap();
    assert!(!q.is_empty());
    assert!(q.is_full());
    assert_eq!(q.len(), 2);

    q.try_recv().unwrap();
    assert_eq!(q.len(), 1);
}

#[test]
fn shrink_is_behaviorally_transparent() {
    let mut q = BoundedQueue::new(8);

    for i in 0..64 {
        assert_eq!(q.try_send(i), Ok(()));
        assert_eq!(q.try_recv().map(|(v, _)| v), Some(i));
    }

    q.shrink_to_fit();

    assert_eq!(q.try_send(999), Ok(()));
    assert_eq!(q.try_recv().map(|(v, _)| v), Some(999));
}

#[test]
fn shrinking_keeps_what_is_queued() {
    let mut q = BoundedQueue::new(3);
    q.try_send("a").unwrap();
    q.try_send("b").unwrap();

    q.shrink_to_fit();

    assert_eq!(q.len(), 2);
    assert_eq!(q.try_recv(), Some(("a", RecvEffect::NoChange)));
    assert_eq!(q.try_recv(), Some(("b", RecvEffect::NoChange)));
    assert_eq!(q.try_recv(), None);
}
