use std::task::{Poll, Waker};

use bachelor::signal::mpsc_latched::{signal, MpscLatchedSignal};
use futures_test::task::new_count_waker;

fn wake(wakers: Vec<Waker>) {
    for waker in wakers {
        waker.wake();
    }
}

#[test]
fn observe_forward_ignores_prior_signal() {
    let mut sig = MpscLatchedSignal::new();
    sig.notify();

    let mut fut = sig.observe_forward();
    let (waker, _) = new_count_waker();

    assert_eq!(fut.poll(&mut sig, &waker), Poll::Pending);

    sig.notify();
    assert_eq!(fut.poll(&mut sig, &waker), Poll::Ready(()));
}

#[test]
fn observe_forward_does_not_clear_pending_waiter() {
    let mut sig = MpscLatchedSignal::new();

    let mut fut = sig.observe();
    let (waker, wake_count) = new_count_waker();

    assert_eq!(fut.poll(&mut sig, &waker), Poll::Pending);

    let ignored = sig.observe_forward();

    sig.notify();
    wake(sig.take_wakes());
    assert_eq!(wake_count.get(), 1);
    assert_eq!(fut.poll(&mut sig, &waker), Poll::Ready(()));

    ignored.release(&mut sig);
}

#[test]
fn notifications_are_latched_and_coalesce() {
    let mut sig = MpscLatchedSignal::default();
    let (waker, _) = new_count_waker();
    sig.notify();
    sig.notify();
    let mut fut = sig.observe();
    assert_eq!(fut.poll(&mut sig, &waker), Poll::Ready(()));
    assert_eq!(fut.poll(&mut sig, &waker), Poll::Pending);
    fut.release(&mut sig);
    sig.notify();
    assert!(sig.take_wakes().is_empty());
}

#[test]
fn handles_notify_and_observe() {
    let (mut sig, producer, mut consumer) = signal();
    let other = producer.clone();
    let (waker, wake_count) = new_count_waker();

    let mut fut = consumer.observe(&sig);
    assert_eq!(fut.poll(&mut sig, &waker), Poll::Pending);
    other.notify(&mut sig);
    wake(sig.take_wakes());
    assert_eq!(wake_count.get(), 1);
    assert_eq!(fut.poll(&mut sig, &waker), Poll::Ready(()));

    producer.notify(&mut sig);
    let mut fut = consumer.observe_forward(&mut sig);
    assert_eq!(fut.poll(&mut sig, &waker), Poll::Pending);
}

#[test]
fn mpsc_latched_waiting_waker_stays_until_it_is_due() {
    let mut sig = MpscLatchedSignal::new();
    let mut fut = sig.observe();
    let (waker, wake_count) = new_count_waker();
    assert_eq!(fut.poll(&mut sig, &waker), Poll::Pending);

    let _ = sig.observe();
    let _ = sig.observe_forward();
    assert_eq!(fut.poll(&mut sig, &waker), Poll::Pending);
    wake(sig.take_wakes());
    assert_eq!(wake_count.get(), 0);

    sig.notify();
    let _ = sig.observe_forward();
    sig.notify();
    fut.release(&mut sig);
    wake(sig.take_wakes());
    assert_eq!(wake_count.get(), 1);
}
