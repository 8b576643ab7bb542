use std::task::{Poll, Waker};

use bachelor::error::Closed;
use bachelor::signal::mpsc_finite_latched::{signal, MpscFiniteLatchedSignal};
use futures_test::task::new_count_waker;

fn wake(wakers: Vec<Waker>) {
    for waker in wakers {
        waker.wake();
    }
}

#[test]
fn mpsc_finite_latched_notify_resolves_ok() {
    let mut sig = MpscFiniteLatchedSignal::new();

    let mut fut = sig.observe();
    let (waker, wake_count) = new_count_waker();

    assert_eq!(fut.poll(&mut sig, &waker), Poll::Pending);

    sig.notify();
    wake(sig.take_wakes());
    assert_eq!(wake_count.get(), 1);
    assert_eq!(fut.poll(&mut sig, &waker), Poll::Ready(Ok(())));
}

#[test]
fn mpsc_finite_latched_close_resolves_err() {
    let mut sig = MpscFiniteLatchedSignal::new();

    let mut fut = sig.observe();
    let (waker, wake_count) = new_count_waker();

    assert_eq!(fut.poll(&mut sig, &waker), Poll::Pending);

    sig.close();
    wake(sig.take_wakes());
    assert_eq!(wake_count.get(), 1);
    assert_eq!(fut.poll(&mut sig, &waker), Poll::Ready(Err(Closed)));
}

#[test]
fn mpsc_finite_latched_changed_before_closed_delivers_ok_first() {
    let mut sig = MpscFiniteLatchedSignal::new();

    sig.notify();
    sig.close();

    let (waker, _) = new_count_waker();

    let mut fut = sig.observe();
    assert_eq!(fut.poll(&mut sig, &waker), Poll::Ready(Ok(())));

    let mut fut = sig.observe();
    assert_eq!(fut.poll(&mut sig, &waker), Poll::Ready(Err(Closed)));
}

#[test]
fn changed_and_closed_between_polls() {
    let mut sig = MpscFiniteLatchedSignal::new();

    let mut fut = sig.observe();
    let (waker, _) = new_count_waker();

    assert_eq!(fut.poll(&mut sig, &waker), Poll::Pending);

    sig.notify();
    sig.close();

    assert_eq!(fut.poll(&mut sig, &waker), Poll::Ready(Ok(())));

    let mut fut2 = sig.observe();
    assert_eq!(fut2.poll(&mut sig, &waker), Poll::Ready(Err(Closed)));
}

#[test]
fn pre_signaled_changed_resolves_immediately() {
    let mut sig = MpscFiniteLatchedSignal::new();
    sig.notify();

    let (waker, _) = new_count_waker();

    let mut fut = sig.observe();
    assert_eq!(fut.poll(&mut sig, &waker), Poll::Ready(Ok(())));
}

#[test]
fn drop_clears_waker() {
    let mut sig = MpscFiniteLatchedSignal::new();

    let mut fut = sig.observe();
    let (waker, wake_count) = new_count_waker();

    assert_eq!(fut.poll(&mut sig, &waker), Poll::Pending);
    fut.release(&mut sig);

    sig.notify();
    wake(sig.take_wakes());
    assert_eq!(wake_count.get(), 0);
}

#[test]
fn multiple_changes_coalesce() {
    let mut sig = MpscFiniteLatchedSignal::new();
    sig.notify();
    sig.notify();
    sig.notify();

    let (waker, _) = new_count_waker();

    let mut fut = sig.observe();
    assert_eq!(fut.poll(&mut sig, &waker), Poll::Ready(Ok(())));

    let mut fut2 = sig.observe();
    assert_eq!(fut2.poll(&mut sig, &waker), Poll::Pending);
}

#[test]
fn mpsc_finite_latched_closes_with_the_last_producer() {
    let (mut shared, first, mut consumer) = signal();
    let second = first.clone(&mut shared);
    let (waker, wake_count) = new_count_waker();

    let mut fut = consumer.observe(&shared);
    assert_eq!(fut.poll(&mut shared.signal, &waker), Poll::Pending);
    first.release(&mut shared);
    assert!(!shared.signal.is_closed());
    assert_eq!(fut.poll(&mut shared.signal, &waker), Poll::Pending);

    second.notify(&mut shared);
    second.release(&mut shared);
    assert!(shared.signal.is_closed());
    wake(shared.signal.take_wakes());
    assert_eq!(wake_count.get(), 1);
    assert_eq!(fut.poll(&mut shared.signal, &waker), Poll::Ready(Ok(())));
    assert_eq!(fut.poll(&mut shared.signal, &waker), Poll::Ready(Err(Closed)));
    assert_eq!(fut.poll(&mut shared.signal, &waker), Poll::Ready(Err(Closed)));
}

#[test]
fn mpsc_finite_latched_producer_closes() {
    let (mut shared, producer, mut consumer) = signal();
    producer.close(&mut shared);
    let (waker, _) = new_count_waker();
    let mut fut = consumer.observe(&shared);
    assert_eq!(fut.poll(&mut shared.signal, &waker), Poll::Ready(Err(Closed)));
}

#[test]
fn mpsc_finite_latched_forward_keeps_closed() {
    let mut sig = MpscFiniteLatchedSignal::default();
    let (waker, _) = new_count_waker();
    sig.notify();
    let mut fut = sig.observe_forward();
    assert_eq!(fut.poll(&mut sig, &waker), Poll::Pending);
    sig.notify();
    sig.close();
    let mut fut = sig.observe_forward();
    assert_eq!(fut.poll(&mut sig, &waker), Poll::Ready(Err(Closed)));
}

#[test]
fn mpsc_finite_latched_waiting_waker_stays_until_it_is_due() {
    let mut sig = MpscFiniteLatchedSignal::new();
    let mut fut = sig.observe();
    let (waker, wake_count) = new_count_waker();
    assert_eq!(fut.poll(&mut sig, &waker), Poll::Pending);

    let _ = sig.observe();
    let _ = sig.observe_forward();
    wake(sig.take_wakes());
    assert_eq!(wake_count.get(), 0);

    sig.close();
    sig.notify();
    fut.release(&mut sig);
    wake(sig.take_wakes());
    assert_eq!(wake_count.get(), 1);
}

#[test]
fn mpsc_finite_latched_is_open_while_a_producer_is_left() {
    let (mut shared, first, _consumer) = signal();
    let second = first.clone(&mut shared);
    first.release(&mut shared);
    let third = second.clone(&mut shared);
    let fourth = third.clone(&mut shared);
    second.release(&mut shared);
    third.release(&mut shared);
    fourth.notify(&mut shared);
    assert_eq!(shared.producers, 1);
    assert!(!shared.signal.is_closed());
    fourth.release(&mut shared);
    assert_eq!(shared.producers, 0);
    assert!(shared.signal.is_closed());
}
