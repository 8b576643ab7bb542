use bachelor::queue::broadcast_queue::{BroadcastQueue, ConsumerKey};
use bachelor::queue::RecvEffect;

fn new_queue(cap: usize) -> BroadcastQueue<i32> {
    BroadcastQueue::new(cap)
}

fn sub<T>(q: &mut BroadcastQueue<T>) -> ConsumerKey {
    q.subscribe_with_context(())
}

#[test]
fn send_recv_single_consumer() {
    let mut q = new_queue(4);
    let c = sub(&mut q);

    assert_eq!(q.try_send(1), Ok(()));
    assert_eq!(q.try_send(2), Ok(()));

    assert_eq!(q.try_recv(c), Some((1, RecvEffect::NoChange)));
    assert_eq!(q.try_recv(c), Some((2, RecvEffect::NoChange)));
    assert_eq!(q.try_recv(c), None);
}

#[test]
fn lagged_consumer_blocks_producer() {
    let mut q = new_queue(2);
    let c = sub(&mut q);

    assert!(q.try_send(1).is_ok());
    assert!(q.try_send(2).is_ok());
    assert_eq!(q.try_send(3), Err(3));

    let (val, gc) = q.try_recv(c).unwrap();
    assert_eq!(val, 1);
    assert_eq!(gc, RecvEffect::Unblocked);

    assert!(q.try_send(3).is_ok());
}

#[test]
fn drop_slow_consumer_unblocks() {
    let mut q = new_queue(2);
    let slow = sub(&mut q);
    let fast = sub(&mut q);

    assert!(q.try_send(10).is_ok());
    assert!(q.try_send(20).is_ok());

    q.try_recv(fast).unwrap();
    q.try_recv(fast).unwrap();

    assert_eq!(q.try_send(30), Err(30));

    assert_eq!(q.unsubscribe(slow), RecvEffect::Unblocked);
    assert!(q.try_send(30).is_ok());
}

#[test]
fn new_subscriber_only_sees_new_items() {
    let mut q = new_queue(4);
    q.try_send(1).unwrap();
    q.try_send(2).unwrap();

    let c = sub(&mut q);

    q.try_send(3).unwrap();

    assert_eq!(q.try_recv(c), Some((3, RecvEffect::NoChange)));
    assert_eq!(q.try_recv(c), None);
}

#[test]
fn no_consumers_sends_succeed() {
    let mut q = new_queue(2);

    for i in 0..100 {
        assert_eq!(q.try_send(i), Ok(()));
    }
}

#[test]
fn multiple_consumers_different_positions() {
    let mut q = new_queue(4);
    let a = sub(&mut q);
    let b = sub(&mut q);

    for i in 0..4 {
        q.try_send(i).unwrap();
    }

    for i in 0..4 {
        let (val, _) = q.try_recv(a).unwrap();
        assert_eq!(val, i);
    }

    assert_eq!(q.try_send(99), Err(99));

    assert_eq!(q.try_recv(b).unwrap().0, 0);
    assert_eq!(q.try_recv(b).unwrap().0, 1);

    assert!(q.try_send(99).is_ok());
}

#[test]
fn consumer_context_roundtrip() {
    let mut q: BroadcastQueue<i32, String> = BroadcastQueue::new(4);
    let c = q.subscribe_with_context("alpha".to_owned());

    q.consumer_context_mut(c).push_str("-beta");
    assert_eq!(q.consumer_context_mut(c).as_str(), "alpha-beta");
}

#[test]
fn subscribe_reuses_vacant_slots() {
    let mut q = new_queue(4);
    let a = sub(&mut q);
    let _b = sub(&mut q);

    q.unsubscribe(a);

    let c = sub(&mut q);

    assert_eq!(c.index(), 0);
}

#[test]
fn unsubscribe_all_then_resubscribe() {
    let mut q = new_queue(2);
    let a = sub(&mut q);

    q.try_send(1).unwrap();
    q.try_send(2).unwrap();

    q.unsubscribe(a);

    assert!(q.try_send(3).is_ok());

    let b = sub(&mut q);
    q.try_send(4).unwrap();

    assert_eq!(q.try_recv(b), Some((4, RecvEffect::NoChange)));
    assert_eq!(q.try_recv(b), None);
}

#[test]
#[should_panic(expected = "invalid key")]
fn double_unsubscribe_panics() {
    let mut q = new_queue(4);
    let c = sub(&mut q);
    q.unsubscribe(c);
    q.unsubscribe(c);
}

#[test]
#[should_panic(expected = "invalid key")]
fn recv_after_unsubscribe_panics() {
    let mut q = new_queue(4);
    let c = sub(&mut q);
    q.unsubscribe(c);
    q.try_recv(c);
}

#[test]
fn broadcast_queue_capacity_one() {
    let mut q = new_queue(1);
    let c = sub(&mut q);

    assert!(q.try_send(42).is_ok());
    assert_eq!(q.try_send(43), Err(43));

    assert_eq!(q.try_recv(c), Some((42, RecvEffect::Unblocked)));
    assert!(q.try_send(43).is_ok());
}

#[test]
fn three_consumers_staggered_reads() {
    let mut q = new_queue(3);
    let a = sub(&mut q);
    let b = sub(&mut q);
    let c = sub(&mut q);

    q.try_send(0).unwrap();
    q.try_send(1).unwrap();
    q.try_send(2).unwrap();

    for _ in 0..3 {
        q.try_recv(a).unwrap();
    }
    q.try_recv(b).unwrap();

    assert_eq!(q.try_send(3), Err(3));

    assert_eq!(q.unsubscribe(c), RecvEffect::Unblocked);

    assert!(q.try_send(3).is_ok());
}

#[test]
fn shrink_is_behaviorally_transparent_after_churn() {
    let mut q = new_queue(8);

    for round in 0..64 {
        let a = sub(&mut q);
        let b = sub(&mut q);

        assert!(q.try_send(round).is_ok());
        assert_eq!(q.try_recv(a).map(|(v, _)| v), Some(round));
        assert_eq!(q.try_recv(b).map(|(v, _)| v), Some(round));

        assert_eq!(q.unsubscribe(a), RecvEffect::NoChange);
        assert_eq!(q.unsubscribe(b), RecvEffect::NoChange);
    }

    q.shrink_buffer_to_fit();
    q.shrink_consumers_to_fit();

    let c = sub(&mut q);
    assert!(q.try_send(999).is_ok());
    assert_eq!(q.try_recv(c), Some((999, RecvEffect::NoChange)));
    assert_eq!(q.try_recv(c), None);
}

struct NoCopy(Vec<u8>);

#[test]
fn try_recv_ref_single_consumer() {
    let mut q: BroadcastQueue<NoCopy> = BroadcastQueue::new(4);
    let c = sub(&mut q);

    assert!(q.try_send(NoCopy(vec![1, 2, 3])).is_ok());
    assert!(q.try_send(NoCopy(vec![4, 5])).is_ok());

    let (val, gc) = q.try_recv_ref(c, |item| item.0.clone()).ok().unwrap();
    assert_eq!(val, vec![1, 2, 3]);
    assert_eq!(gc, RecvEffect::NoChange);

    let (val, _) = q.try_recv_ref(c, |item| item.0.len()).ok().unwrap();
    assert_eq!(val, 2);

    assert!(q.try_recv_ref(c, |_| ()).is_err());
}

#[test]
fn try_recv_ref_returns_none_when_caught_up() {
    let mut q: BroadcastQueue<NoCopy> = BroadcastQueue::new(4);
    let c = sub(&mut q);

    let mut called = false;
    let result = q.try_recv_ref(c, |_| {
        called = true;
    });
    assert!(result.is_err());
    assert!(!called);
}

#[test]
fn try_recv_ref_gc_unblocks() {
    let mut q: BroadcastQueue<NoCopy> = BroadcastQueue::new(2);
    let c = sub(&mut q);

    assert!(q.try_send(NoCopy(vec![10])).is_ok());
    assert!(q.try_send(NoCopy(vec![20])).is_ok());
    assert!(q.try_send(NoCopy(vec![30])).is_err());

    let (val, gc) = q.try_recv_ref(c, |item| item.0[0]).ok().unwrap();
    assert_eq!(val, 10);
    assert_eq!(gc, RecvEffect::Unblocked);

    assert!(q.try_send(NoCopy(vec![30])).is_ok());
}

#[test]
fn try_recv_ref_multiple_consumers() {
    let mut q: BroadcastQueue<NoCopy> = BroadcastQueue::new(4);
    let a = sub(&mut q);
    let b = sub(&mut q);

    assert!(q.try_send(NoCopy(vec![1])).is_ok());

    let (va, _) = q.try_recv_ref(a, |item| item.0.clone()).ok().unwrap();
    let (vb, _) = q.try_recv_ref(b, |item| item.0.clone()).ok().unwrap();
    assert_eq!(va, vec![1]);
    assert_eq!(vb, vec![1]);
}

#[test]
fn keys_are_given_in_order_and_the_last_removed_comes_first() {
    let mut q = new_queue(2);
    let a = sub(&mut q);
    let b = sub(&mut q);
    let c = sub(&mut q);
    assert_eq!((a.index(), b.index(), c.index()), (0, 1, 2));

    q.unsubscribe(a);
    q.unsubscribe(b);
    assert_eq!(sub(&mut q).index(), 1);
    assert_eq!(sub(&mut q).index(), 0);
    assert_eq!(sub(&mut q).index(), 3);
}

#[test]
fn shrinking_keeps_items_and_consumers() {
    let mut q: BroadcastQueue<i32, char> = BroadcastQueue::new(3);
    let a = q.subscribe_with_context('a');
    let b = q.subscribe_with_context('b');
    q.unsubscribe(a);
    q.try_send(5).unwrap();
    q.try_send(6).unwrap();

    q.shrink_buffer_to_fit();
    q.shrink_consumers_to_fit();

    assert_eq!(*q.consumer_context_mut(b), 'b');
    assert_eq!(q.try_recv(b), Some((5, RecvEffect::NoChange)));
    assert_eq!(q.try_recv(b), Some((6, RecvEffect::NoChange)));
    assert_eq!(q.try_recv(b), None);
}

#[test]
fn items_are_kept_until_the_slowest_consumer_has_them() {
    let mut q = new_queue(2);
    let slow = sub(&mut q);
    let fast = sub(&mut q);
    q.try_send(1).unwrap();
    assert_eq!(q.try_recv(fast), Some((1, RecvEffect::NoChange)));
    let late = sub(&mut q);
    q.try_send(2).unwrap();
    assert_eq!(q.try_recv(fast), Some((2, RecvEffect::NoChange)));
    assert_eq!(q.try_recv(late), Some((2, RecvEffect::NoChange)));
    assert_eq!(q.try_send(3), Err(3));
    assert_eq!(q.unsubscribe(fast), RecvEffect::NoChange);
    assert_eq!(q.try_recv(slow), Some((1, RecvEffect::Unblocked)));
    assert_eq!(q.try_send(3), Ok(()));
    assert_eq!(q.try_recv(slow), Some((2, RecvEffect::Unblocked)));
    assert_eq!(q.try_recv(slow), Some((3, RecvEffect::NoChange)));
    assert_eq!(q.try_recv(late), Some((3, RecvEffect::NoChange)));
}

#[test]
fn shrinking_forgets_vacant_keys_above_the_greatest() {
    let mut q = new_queue(2);
    let keys: Vec<_> = (0..5).map(|_| sub(&mut q)).collect();
    q.unsubscribe(keys[0]);
    q.unsubscribe(keys[2]);
    q.unsubscribe(keys[4]);
    q.shrink_consumers_to_fit();
    assert_eq!(sub(&mut q).index(), 0);
    assert_eq!(sub(&mut q).index(), 2);
    assert_eq!(sub(&mut q).index(), 4);
}

#[test]
fn shrinking_without_such_keys_keeps_their_order() {
    let mut q = new_queue(2);
    let keys: Vec<_> = (0..4).map(|_| sub(&mut q)).collect();
    q.unsubscribe(keys[0]);
    q.unsubscribe(keys[2]);
    q.shrink_consumers_to_fit();
    assert_eq!(sub(&mut q).index(), 2);
    assert_eq!(sub(&mut q).index(), 0);
    assert_eq!(sub(&mut q).index(), 4);
}
