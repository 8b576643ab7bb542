use std::future::poll_fn;
use std::task::{Poll, Waker};

use bachelor::error::Closed;
use bachelor::watch::mpmc::{watch, MpmcWatchRef, MpmcWatchRefConsumer, Shared};
use futures_executor::block_on;
use futures_test::task::new_count_waker;

fn wake(wakers: Vec<Waker>) {
    for waker in wakers {
        waker.wake();
    }
}

async fn changed<T>(
    rx: &mut MpmcWatchRefConsumer<T>,
    shared: &mut Shared<T>,
) -> Result<(), Closed> {
    let mut wait = rx.changed(shared);
    let result = poll_fn(|cx| wait.poll(shared.watch.signal_mut(), cx.waker())).await;
    wait.release(shared.watch.signal_mut());
    wake(shared.watch.take_wakes());
    result
}

#[test]
fn mpmc_update_and_view() {
    let mut w = MpmcWatchRef::new(0);
    w.update(|v| *v = 42);
    assert_eq!(w.view(|v| *v), 42);
}

#[test]
fn mpmc_get_clones_value() {
    let mut w = MpmcWatchRef::new(String::from("hello"));
    assert_eq!(w.get(), "hello");
    w.update(|v| v.push_str(" world"));
    assert_eq!(w.get(), "hello world");
}

#[test]
fn mpmc_observe_resolves_on_update() {
    let mut w = MpmcWatchRef::new(0);
    let mut key = w.subscribe_forward();

    let mut fut = w.observe(&mut key);
    let (waker, wake_count) = new_count_waker();

    assert_eq!(fut.poll(w.signal_mut(), &waker), Poll::Pending);

    w.update(|v| *v = 1);
    wake(w.take_wakes());
    assert_eq!(wake_count.get(), 1);
    assert_eq!(fut.poll(w.signal_mut(), &waker), Poll::Ready(Ok(())));
}

#[test]
fn mpmc_close_resolves_err() {
    let mut w = MpmcWatchRef::new(0);
    let mut key = w.subscribe_forward();

    let mut fut = w.observe(&mut key);
    let (waker, _) = new_count_waker();

    assert_eq!(fut.poll(w.signal_mut(), &waker), Poll::Pending);

    w.close();
    assert_eq!(fut.poll(w.signal_mut(), &waker), Poll::Ready(Err(Closed)));
}

#[test]
fn mpmc_update_then_close_delivers_ok_then_err() {
    let mut w = MpmcWatchRef::new(0);
    let mut key = w.subscribe_forward();

    let mut fut = w.observe(&mut key);
    let (waker, _) = new_count_waker();

    assert_eq!(fut.poll(w.signal_mut(), &waker), Poll::Pending);

    w.update(|v| *v = 99);
    w.close();

    assert_eq!(fut.poll(w.signal_mut(), &waker), Poll::Ready(Ok(())));
    fut.release(w.signal_mut());

    let mut fut2 = w.observe(&mut key);
    assert_eq!(fut2.poll(w.signal_mut(), &waker), Poll::Ready(Err(Closed)));

    assert_eq!(w.get(), 99);
}

#[test]
fn mpmc_multi_consumer_independence() {
    let mut w = MpmcWatchRef::new(0);
    let mut k1 = w.subscribe_forward();
    let mut k2 = w.subscribe_forward();

    let (waker, _) = new_count_waker();

    w.update(|v| *v = 1);

    let mut f1 = w.observe(&mut k1);
    assert_eq!(f1.poll(w.signal_mut(), &waker), Poll::Ready(Ok(())));

    let mut f2 = w.observe(&mut k2);
    assert_eq!(f2.poll(w.signal_mut(), &waker), Poll::Ready(Ok(())));

    f1.release(w.signal_mut());
    let mut f1 = w.observe(&mut k1);
    assert_eq!(f1.poll(w.signal_mut(), &waker), Poll::Pending);
}

#[test]
fn mpmc_channel_update_and_changed() {
    block_on(async {
        let (mut shared, tx, src) = watch(0);
        let mut rx = src.subscribe_forward(&shared);

        tx.update(&mut shared, |v| *v = 42);
        changed(&mut rx, &mut shared).await.unwrap();

        assert_eq!(rx.get(&shared), 42);
    });
}

#[test]
fn mpmc_producer_drop_closes_channel() {
    block_on(async {
        let (mut shared, tx, src) = watch(0);
        let mut rx = src.subscribe_forward(&shared);

        tx.update(&mut shared, |v| *v = 1);
        tx.release(&mut shared);

        changed(&mut rx, &mut shared).await.unwrap();
        assert_eq!(rx.get(&shared), 1);

        assert_eq!(changed(&mut rx, &mut shared).await, Err(Closed));
    });
}

#[test]
fn mpmc_producer_clone_keeps_channel_open() {
    block_on(async {
        let (mut shared, tx1, src) = watch(0);
        let mut rx = src.subscribe_forward(&shared);
        let tx2 = tx1.clone(&mut shared);

        tx1.release(&mut shared);

        tx2.update(&mut shared, |v| *v = 7);
        changed(&mut rx, &mut shared).await.unwrap();
        assert_eq!(rx.get(&shared), 7);
    });
}

#[test]
fn mpmc_last_producer_clone_drop_closes() {
    block_on(async {
        let (mut shared, tx1, src) = watch(0);
        let mut rx = src.subscribe_forward(&shared);
        let tx2 = tx1.clone(&mut shared);

        tx1.release(&mut shared);
        tx2.release(&mut shared);

        assert_eq!(changed(&mut rx, &mut shared).await, Err(Closed));
    });
}

#[test]
fn source_subscribe_tracks_independently() {
    block_on(async {
        let (mut shared, tx, src) = watch(0);
        let mut rx1 = src.subscribe_forward(&shared);

        tx.update(&mut shared, |v| *v = 1);
        changed(&mut rx1, &mut shared).await.unwrap();
        assert_eq!(rx1.get(&shared), 1);

        let mut rx2 = src.subscribe_forward(&shared);

        tx.update(&mut shared, |v| *v = 2);
        changed(&mut rx1, &mut shared).await.unwrap();
        changed(&mut rx2, &mut shared).await.unwrap();
        assert_eq!(rx1.get(&shared), 2);
        assert_eq!(rx2.get(&shared), 2);
    });
}

#[test]
fn subscribe_forward_does_not_see_prior_unseen() {
    let (mut shared, tx, src) = watch(0);
    let mut rx1 = src.subscribe_forward(&shared);

    tx.update(&mut shared, |v| *v = 1);

    let mut rx2 = src.subscribe_forward(&shared);

    let (waker, _) = new_count_waker();

    let mut f1 = rx1.changed(&shared);
    assert_eq!(f1.poll(shared.watch.signal_mut(), &waker), Poll::Ready(Ok(())));

    let mut f2 = rx2.changed(&shared);
    assert_eq!(f2.poll(shared.watch.signal_mut(), &waker), Poll::Pending);
}

#[test]
fn subscribe_sees_prior_changes() {
    let (mut shared, tx, src) = watch(0);

    tx.update(&mut shared, |v| *v = 1);

    let mut rx = src.subscribe(&shared);

    let (waker, _) = new_count_waker();

    let mut f = rx.changed(&shared);
    assert_eq!(f.poll(shared.watch.signal_mut(), &waker), Poll::Ready(Ok(())));
}

#[test]
fn changed_wakes_all_consumers() {
    let (mut shared, tx, src) = watch(0);
    let mut rx1 = src.subscribe_forward(&shared);
    let mut rx2 = src.subscribe_forward(&shared);

    let mut f1 = rx1.changed(&shared);
    let (waker1, wake1) = new_count_waker();
    assert_eq!(f1.poll(shared.watch.signal_mut(), &waker1), Poll::Pending);

    let mut f2 = rx2.changed(&shared);
    let (waker2, wake2) = new_count_waker();
    assert_eq!(f2.poll(shared.watch.signal_mut(), &waker2), Poll::Pending);

    tx.update(&mut shared, |v| *v = 1);
    wake(shared.watch.take_wakes());

    assert_eq!(wake1.get(), 1);
    assert_eq!(wake2.get(), 1);
}

#[test]
fn mpmc_producer_view_and_get() {
    let (shared, tx, _src) = watch(100);
    assert_eq!(tx.get(&shared), 100);
    assert_eq!(tx.view(&shared, |v| *v + 1), 101);
}

#[test]
fn mpmc_consumer_view_delegates() {
    let (mut shared, tx, src) = watch(String::from("init"));
    let rx = src.subscribe_forward(&shared);
    tx.update(&mut shared, |v| *v = String::from("updated"));
    assert_eq!(rx.view(&shared, |v| v.len()), 7);
}

#[test]
fn shrink_to_fit_is_transparent() {
    block_on(async {
        let (mut shared, tx, src) = watch(0);
        let mut rx = src.subscribe_forward(&shared);

        for i in 0..10 {
            tx.update(&mut shared, |v| *v = i);
            changed(&mut rx, &mut shared).await.unwrap();
        }

        tx.shrink_to_fit(&mut shared);

        tx.update(&mut shared, |v| *v = 999);
        changed(&mut rx, &mut shared).await.unwrap();
        assert_eq!(rx.get(&shared), 999);
    });
}

#[test]
fn closed_value_changes_without_notice() {
    let (mut shared, tx, src) = watch(1);
    let mut rx = src.clone().subscribe_forward(&shared);
    let (waker, _) = new_count_waker();
    shared.watch.close();
    assert!(rx.is_closed(&shared));
    tx.update(&mut shared, |v| *v = 2);
    assert_eq!(rx.get(&shared), 2);
    assert_eq!(shared.watch.generation(), 0);
    let mut fut = rx.changed(&shared);
    assert_eq!(fut.poll(shared.watch.signal_mut(), &waker), Poll::Ready(Err(Closed)));
}

#[test]
fn mpmc_watch_waiting_waker_stays_whatever_others_do() {
    let mut w = MpmcWatchRef::new(0);
    let mut other_key = w.subscribe_forward();
    let mut key = w.subscribe_forward();
    let (other_waker, other_count) = new_count_waker();
    let (waker, wake_count) = new_count_waker();

    let mut other = w.observe(&mut other_key);
    assert_eq!(other.poll(w.signal_mut(), &other_waker), Poll::Pending);
    let mut wait = w.observe(&mut key);
    assert_eq!(wait.poll(w.signal_mut(), &waker), Poll::Pending);
    other.release(w.signal_mut());
    w.shrink_to_fit();
    wake(w.take_wakes());
    assert_eq!(wake_count.get(), 0);

    w.update(|value| *value = 3);
    wake(w.take_wakes());
    assert_eq!(wake_count.get(), 1);
    assert_eq!(other_count.get(), 0);
    assert_eq!(wait.poll(w.signal_mut(), &waker), Poll::Ready(Ok(())));
}

#[test]
fn mpmc_watch_is_open_while_a_producer_is_left() {
    let (mut shared, first, source) = watch(0);
    let consumer = source.subscribe(&shared);
    let second = first.clone(&mut shared);
    first.release(&mut shared);
    let third = second.clone(&mut shared);
    second.release(&mut shared);
    third.update(&mut shared, |value| *value = 7);
    assert!(!consumer.is_closed(&shared));
    third.release(&mut shared);
    assert!(consumer.is_closed(&shared));
    assert_eq!(consumer.get(&shared), 7);
}
