use std::future::poll_fn;
use std::task::{Poll, Waker};

use bachelor::error::Closed;
use bachelor::watch::mpsc::{watch, MpscWatchRef, MpscWatchRefConsumer, Shared};
use futures_executor::block_on;
use futures_test::task::new_count_waker;

fn wake(wakers: Vec<Waker>) {
    for waker in wakers {
        waker.wake();
    }
}

async fn changed<T>(
    rx: &mut MpscWatchRefConsumer<T>,
    shared: &mut Shared<T>,
) -> Result<(), Closed> {
    let mut wait = rx.changed(shared);
    let result = poll_fn(|cx| wait.poll(shared.watch.signal_mut(), cx.waker())).await;
    wait.release(shared.watch.signal_mut());
    wake(shared.watch.take_wakes());
    result
}

#[test]
fn mpsc_update_and_view() {
    let mut w = MpscWatchRef::new(0);
    w.update(|v| *v = 42).unwrap();
    assert_eq!(w.view(|v| *v), 42);
}

#[test]
fn mpsc_get_clones_value() {
    let mut w = MpscWatchRef::new(String::from("hello"));
    assert_eq!(w.get(), "hello");
    w.update(|v| v.push_str(" world")).unwrap();
    assert_eq!(w.get(), "hello world");
}

#[test]
fn mpsc_observe_resolves_on_update() {
    let mut w = MpscWatchRef::new(0);

    let mut fut = w.observe();
    let (waker, wake_count) = new_count_waker();

    assert_eq!(fut.poll(w.signal_mut(), &waker), Poll::Pending);

    w.update(|v| *v = 1).unwrap();
    wake(w.take_wakes());
    assert_eq!(wake_count.get(), 1);
    assert_eq!(fut.poll(w.signal_mut(), &waker), Poll::Ready(Ok(())));
}

#[test]
fn observe_forward_ignores_prior_change() {
    let mut w = MpscWatchRef::new(0);
    w.update(|v| *v = 1).unwrap();

    let mut fut = w.observe_forward();
    let (waker, _) = new_count_waker();

    assert_eq!(fut.poll(w.signal_mut(), &waker), Poll::Pending);

    w.update(|v| *v = 2).unwrap();
    assert_eq!(fut.poll(w.signal_mut(), &waker), Poll::Ready(Ok(())));
}

#[test]
fn observe_forward_preserves_closed_state() {
    let mut w = MpscWatchRef::new(0);
    w.update(|v| *v = 1).unwrap();
    w.close();

    let mut fut = w.observe_forward();
    let (waker, _) = new_count_waker();

    assert_eq!(fut.poll(w.signal_mut(), &waker), Poll::Ready(Err(Closed)));
}

#[test]
fn mpsc_close_resolves_err() {
    let mut w = MpscWatchRef::new(0);

    let mut fut = w.observe();
    let (waker, _) = new_count_waker();

    assert_eq!(fut.poll(w.signal_mut(), &waker), Poll::Pending);

    w.close();
    assert_eq!(fut.poll(w.signal_mut(), &waker), Poll::Ready(Err(Closed)));
}

#[test]
fn mpsc_update_then_close_delivers_ok_then_err() {
    let mut w = MpscWatchRef::new(0);

    let mut fut = w.observe();
    let (waker, _) = new_count_waker();

    assert_eq!(fut.poll(w.signal_mut(), &waker), Poll::Pending);

    w.update(|v| *v = 99).unwrap();
    w.close();

    assert_eq!(fut.poll(w.signal_mut(), &waker), Poll::Ready(Ok(())));

    let mut fut2 = w.observe();
    assert_eq!(fut2.poll(w.signal_mut(), &waker), Poll::Ready(Err(Closed)));

    assert_eq!(w.get(), 99);
}

#[test]
fn mpsc_channel_update_and_changed() {
    block_on(async {
        let (mut shared, tx, mut rx) = watch(0);

        tx.update(&mut shared, |v| *v = 42).unwrap();
        changed(&mut rx, &mut shared).await.unwrap();

        assert_eq!(rx.get(&shared), 42);
    });
}

#[test]
fn mpsc_producer_drop_closes_channel() {
    block_on(async {
        let (mut shared, tx, mut rx) = watch(0);

        tx.update(&mut shared, |v| *v = 1).unwrap();
        tx.release(&mut shared);

        changed(&mut rx, &mut shared).await.unwrap();
        assert_eq!(rx.get(&shared), 1);

        assert_eq!(changed(&mut rx, &mut shared).await, Err(Closed));
    });
}

#[test]
fn mpsc_producer_clone_keeps_channel_open() {
    block_on(async {
        let (mut shared, tx1, mut rx) = watch(0);
        let tx2 = tx1.clone(&mut shared);

        tx1.release(&mut shared);

        tx2.update(&mut shared, |v| *v = 7).unwrap();
        changed(&mut rx, &mut shared).await.unwrap();
        assert_eq!(rx.get(&shared), 7);
    });
}

#[test]
fn mpsc_last_producer_clone_drop_closes() {
    block_on(async {
        let (mut shared, tx1, mut rx) = watch(0);
        let tx2 = tx1.clone(&mut shared);

        tx1.release(&mut shared);
        tx2.release(&mut shared);

        assert_eq!(changed(&mut rx, &mut shared).await, Err(Closed));
    });
}

#[test]
fn mpsc_consumer_view_delegates() {
    let (mut shared, tx, rx) = watch(String::from("init"));
    tx.update(&mut shared, |v| *v = String::from("updated")).unwrap();
    assert_eq!(rx.view(&shared, |v| v.len()), 7);
}

#[test]
fn mpsc_producer_view_and_get() {
    let (shared, tx, _rx) = watch(100);
    assert_eq!(tx.get(&shared), 100);
    assert_eq!(tx.view(&shared, |v| *v + 1), 101);
}

#[test]
fn changed_wakes_pending_consumer() {
    let (mut shared, tx, mut rx) = watch(0);

    let mut fut = rx.changed(&shared);
    let (waker, wake_count) = new_count_waker();

    assert_eq!(fut.poll(shared.watch.signal_mut(), &waker), Poll::Pending);
    wake(shared.watch.take_wakes());
    assert_eq!(wake_count.get(), 0);

    tx.update(&mut shared, |v| *v = 1).unwrap();
    wake(shared.watch.take_wakes());
    assert_eq!(wake_count.get(), 1);
}

#[test]
fn changed_forward_ignores_prior_change() {
    let (mut shared, tx, mut rx) = watch(0);
    tx.update(&mut shared, |v| *v = 1).unwrap();

    let mut fut = rx.changed_forward(&mut shared);
    let (waker, _) = new_count_waker();

    assert_eq!(fut.poll(shared.watch.signal_mut(), &waker), Poll::Pending);

    tx.update(&mut shared, |v| *v = 2).unwrap();
    assert_eq!(fut.poll(shared.watch.signal_mut(), &waker), Poll::Ready(Ok(())));
}

#[test]
fn closed_value_is_not_changed() {
    let (mut shared, tx, rx) = watch(1);
    assert_eq!(tx.set(&mut shared, 2), Ok(()));
    assert!(!rx.is_closed(&shared));
    rx.release(&mut shared);
    assert!(shared.watch.is_closed());
    assert_eq!(tx.set(&mut shared, 3), Err(Closed));
    let mut called = false;
    assert_eq!(tx.update(&mut shared, |_| called = true), Err(Closed));
    assert!(!called);
    assert_eq!(tx.get(&shared), 2);
}

#[test]
fn last_set_wins_and_is_observed_once() {
    let mut w = MpscWatchRef::new('a');
    w.set('b').unwrap();
    w.set('c').unwrap();
    assert_eq!(w.get(), 'c');
    let (waker, _) = new_count_waker();
    let mut fut = w.observe();
    assert_eq!(fut.poll(w.signal_mut(), &waker), Poll::Ready(Ok(())));
    assert_eq!(fut.poll(w.signal_mut(), &waker), Poll::Pending);
}

#[test]
fn mpsc_watch_waiting_waker_stays_until_it_is_due() {
    let mut w = MpscWatchRef::new(0);
    let mut wait = w.observe();
    let (waker, wake_count) = new_count_waker();
    assert_eq!(wait.poll(w.signal_mut(), &waker), Poll::Pending);
    let _ = w.observe_forward();
    wake(w.take_wakes());
    assert_eq!(wake_count.get(), 0);

    assert_eq!(w.set(1), Ok(()));
    w.close();
    assert_eq!(w.set(2), Err(Closed));
    wake(w.take_wakes());
    assert_eq!(wake_count.get(), 1);
    assert_eq!(wait.poll(w.signal_mut(), &waker), Poll::Ready(Ok(())));
    assert_eq!(w.get(), 1);
}

#[test]
fn mpsc_watch_is_open_while_a_producer_is_left() {
    let (mut shared, first, consumer) = watch(0);
    let second = first.clone(&mut shared);
    first.release(&mut shared);
    let third = second.clone(&mut shared);
    second.release(&mut shared);
    assert_eq!(third.set(&mut shared, 7), Ok(()));
    assert!(!consumer.is_closed(&shared));
    third.release(&mut shared);
    assert!(consumer.is_closed(&shared));
    assert_eq!(consumer.get(&shared), 7);
}
