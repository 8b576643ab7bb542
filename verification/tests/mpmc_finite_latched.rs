use std::task::{Poll, Waker};

use bachelor::error::Closed;
use bachelor::signal::mpmc_finite_latched::{signal, MpmcFiniteLatchedSignal};
use futures_test::task::new_count_waker;

fn wake(wakers: Vec<Waker>) {
    for waker in wakers {
        waker.wake();
    }
}

#[test]
fn mpmc_finite_latched_notify_resolves_ok() {
    let mut sig = MpmcFiniteLatchedSignal::new();
    let mut key = sig.subscribe_forward();

    let mut fut = sig.observe(&mut key);
    let (waker, wake_count) = new_count_waker();

    assert_eq!(fut.poll(&mut sig, &waker), Poll::Pending);

    sig.notify().unwrap();
    wake(sig.take_wakes());
    assert_eq!(wake_count.get(), 1);
    assert_eq!(fut.poll(&mut sig, &waker), Poll::Ready(Ok(())));
}

#[test]
fn mpmc_finite_latched_close_resolves_err() {
    let mut sig = MpmcFiniteLatchedSignal::new();
    let mut key = sig.subscribe_forward();

    let mut fut = sig.observe(&mut key);
    let (waker, wake_count) = new_count_waker();

    assert_eq!(fut.poll(&mut sig, &waker), Poll::Pending);

    sig.close();
    wake(sig.take_wakes());
    assert_eq!(wake_count.get(), 1);
    assert_eq!(fut.poll(&mut sig, &waker), Poll::Ready(Err(Closed)));
}

#[test]
fn mpmc_finite_latched_changed_before_closed_delivers_ok_first() {
    let mut sig = MpmcFiniteLatchedSignal::new();
    let mut key = sig.subscribe_forward();

    sig.notify().unwrap();
    sig.close();

    let (waker, _) = new_count_waker();

    let mut fut = sig.observe(&mut key);
    assert_eq!(fut.poll(&mut sig, &waker), Poll::Ready(Ok(())));
    fut.release(&mut sig);

    let mut fut = sig.observe(&mut key);
    assert_eq!(fut.poll(&mut sig, &waker), Poll::Ready(Err(Closed)));
}

#[test]
fn mpmc_finite_latched_multi_consumer_independence() {
    let mut sig = MpmcFiniteLatchedSignal::new();
    let mut k1 = sig.subscribe_forward();
    let mut k2 = sig.subscribe_forward();

    let (waker, _) = new_count_waker();

    sig.notify().unwrap();

    let mut f1 = sig.observe(&mut k1);
    assert_eq!(f1.poll(&mut sig, &waker), Poll::Ready(Ok(())));
    f1.release(&mut sig);

    let mut f2 = sig.observe(&mut k2);
    assert_eq!(f2.poll(&mut sig, &waker), Poll::Ready(Ok(())));
    f2.release(&mut sig);

    let mut f1 = sig.observe(&mut k1);
    assert_eq!(f1.poll(&mut sig, &waker), Poll::Pending);
    f1.release(&mut sig);

    let mut f2 = sig.observe(&mut k2);
    assert_eq!(f2.poll(&mut sig, &waker), Poll::Pending);
}

#[test]
fn subscribe_vs_subscribe_forward() {
    let mut sig = MpmcFiniteLatchedSignal::new();
    sig.notify().unwrap();

    let (waker, _) = new_count_waker();

    let mut k_old = sig.subscribe();
    let mut fut = sig.observe(&mut k_old);
    assert_eq!(fut.poll(&mut sig, &waker), Poll::Ready(Ok(())));

    let mut k_new = sig.subscribe_forward();
    let mut fut = sig.observe(&mut k_new);
    assert_eq!(fut.poll(&mut sig, &waker), Poll::Pending);
}

#[test]
fn lsb_isolation_generation_and_closed() {
    let mut sig = MpmcFiniteLatchedSignal::new();

    assert_eq!(sig.generation(), 0);
    assert!(!sig.is_closed());

    sig.notify().unwrap();
    assert_eq!(sig.generation(), 2);
    assert!(!sig.is_closed());

    sig.close();
    assert_eq!(sig.generation(), 2);
    assert!(sig.is_closed());

    assert_eq!(sig.notify(), Err(Closed));
    assert_eq!(sig.generation(), 2);
    assert!(sig.is_closed());
}

#[test]
fn drop_clears_waker_slot() {
    let mut sig = MpmcFiniteLatchedSignal::new();
    let mut key = sig.subscribe_forward();

    let mut fut = sig.observe(&mut key);
    let (waker, wake_count) = new_count_waker();

    assert_eq!(fut.poll(&mut sig, &waker), Poll::Pending);
    fut.release(&mut sig);

    sig.notify().unwrap();
    wake(sig.take_wakes());
    assert_eq!(wake_count.get(), 0);
}

#[test]
fn notify_after_close_is_noop() {
    let mut sig = MpmcFiniteLatchedSignal::new();
    let mut key = sig.subscribe_forward();
    sig.close();
    assert_eq!(sig.notify(), Err(Closed));

    let (waker, _) = new_count_waker();

    let mut fut = sig.observe(&mut key);
    assert_eq!(fut.poll(&mut sig, &waker), Poll::Ready(Err(Closed)));
}

#[test]
fn waker_slab_is_cleaned_up() {
    let mut sig = MpmcFiniteLatchedSignal::new();
    let mut key = sig.subscribe_forward();

    let (waker, _) = new_count_waker();

    for _ in 0..10 {
        let mut fut = sig.observe(&mut key);
        assert_eq!(fut.poll(&mut sig, &waker), Poll::Pending);
        fut.release(&mut sig);
    }

    sig.shrink_to_fit();

    sig.notify().unwrap();
    let mut fut = sig.observe(&mut key);
    assert_eq!(fut.poll(&mut sig, &waker), Poll::Ready(Ok(())));
}

#[test]
fn mpmc_finite_latched_closes_with_the_last_producer() {
    let (mut shared, first, source) = signal();
    let second = first.clone(&mut shared);
    let mut consumer = source.subscribe(&mut shared);
    let (waker, _) = new_count_waker();

    first.release(&mut shared);
    assert!(!shared.signal.is_closed());
    assert_eq!(second.notify(&mut shared), Ok(()));
    second.release(&mut shared);
    assert!(shared.signal.is_closed());

    let mut fut = consumer.observe(&shared);
    assert_eq!(fut.poll(&mut shared.signal, &waker), Poll::Ready(Ok(())));
    assert_eq!(fut.poll(&mut shared.signal, &waker), Poll::Ready(Err(Closed)));
    fut.release(&mut shared.signal);
}

#[test]
fn mpmc_finite_latched_closes_with_the_last_receiver() {
    let (mut shared, producer, source) = signal();
    let other = source.clone(&mut shared);
    let consumer = other.subscribe_forward(&mut shared);
    assert_eq!(shared.receiver_count, 3);

    source.release(&mut shared);
    other.release(&mut shared);
    assert_eq!(producer.notify(&mut shared), Ok(()));
    consumer.release(&mut shared);
    assert_eq!(producer.notify(&mut shared), Err(Closed));
}

#[test]
fn mpmc_finite_latched_producer_closes() {
    let (mut shared, producer, source) = signal();
    let mut consumer = source.subscribe(&mut shared);
    let (waker, wake_count) = new_count_waker();

    let mut fut = consumer.observe(&shared);
    assert_eq!(fut.poll(&mut shared.signal, &waker), Poll::Pending);
    producer.close(&mut shared);
    wake(shared.signal.take_wakes());
    assert_eq!(wake_count.get(), 1);
    assert_eq!(fut.poll(&mut shared.signal, &waker), Poll::Ready(Err(Closed)));
}

#[test]
fn mpmc_finite_latched_forward_puts_notifications_aside() {
    let (mut shared, producer, source) = signal();
    let mut consumer = source.subscribe(&mut shared);
    let (waker, _) = new_count_waker();
    producer.notify(&mut shared).unwrap();

    let mut fut = consumer.observe_forward(&shared);
    assert_eq!(fut.poll(&mut shared.signal, &waker), Poll::Pending);
    producer.notify(&mut shared).unwrap();
    assert_eq!(fut.poll(&mut shared.signal, &waker), Poll::Ready(Ok(())));
}

#[test]
fn mpmc_finite_latched_default_is_open() {
    let sig = MpmcFiniteLatchedSignal::default();
    assert!(!sig.is_closed());
    assert_eq!(sig.generation(), 0);
}

#[test]
fn mpmc_finite_latched_waiting_waker_stays_whatever_others_do() {
    let mut sig = MpmcFiniteLatchedSignal::new();
    let mut other_key = sig.subscribe_forward();
    let mut key = sig.subscribe_forward();
    let (other_waker, other_count) = new_count_waker();
    let (waker, wake_count) = new_count_waker();

    let mut other = sig.observe(&mut other_key);
    assert_eq!(other.poll(&mut sig, &other_waker), Poll::Pending);
    let mut fut = sig.observe(&mut key);
    assert_eq!(fut.poll(&mut sig, &waker), Poll::Pending);
    other.release(&mut sig);
    sig.shrink_to_fit();
    wake(sig.take_wakes());
    assert_eq!(wake_count.get(), 0);

    sig.close();
    assert_eq!(sig.notify(), Err(Closed));
    wake(sig.take_wakes());
    assert_eq!(wake_count.get(), 1);
    assert_eq!(other_count.get(), 0);
    assert_eq!(fut.poll(&mut sig, &waker), Poll::Ready(Err(Closed)));
}

#[test]
fn mpmc_finite_latched_is_open_while_both_sides_are_left() {
    let (mut shared, producer, source) = signal();
    let second_producer = producer.clone(&mut shared);
    let consumer = source.subscribe(&mut shared);
    source.release(&mut shared);
    producer.release(&mut shared);
    let third_producer = second_producer.clone(&mut shared);
    second_producer.release(&mut shared);
    assert_eq!(third_producer.notify(&mut shared), Ok(()));
    assert_eq!((shared.producer_count, shared.receiver_count), (1, 1));
    assert!(!shared.signal.is_closed());
    consumer.release(&mut shared);
    assert_eq!((shared.producer_count, shared.receiver_count), (1, 0));
    assert!(shared.signal.is_closed());
    assert_eq!(third_producer.notify(&mut shared), Err(Closed));
}
