use std::future::poll_fn;
use std::task::{Poll, Waker};

use bachelor::broadcast::spmc::{
    broadcast, Shared, SpmcBroadcast, SpmcBroadcastConsumer, SpmcBroadcastConsumerRef,
    SpmcBroadcastProducer,
};
use bachelor::error::{Closed, TryRecvRefError, TrySendError};
use futures_executor::block_on;
use futures_test::task::new_count_waker;

fn wake(wakers: Vec<Waker>) {
    for waker in wakers {
        waker.wake();
    }
}

async fn send<T>(channel: &mut SpmcBroadcast<T>, item: T) -> Result<(), T> {
    let mut send = channel.send(item);
    let result = poll_fn(|cx| send.poll(channel, cx.waker())).await;
    send.release(channel);
    wake(channel.take_wakes());
    result
}

async fn recv_by_ref<T: Clone>(
    consumer: &mut SpmcBroadcastConsumerRef<T>,
    channel: &mut SpmcBroadcast<T>,
) -> Result<T, Closed> {
    let mut recv = consumer.recv(channel);
    let result = poll_fn(|cx| recv.poll(channel, cx.waker())).await;
    recv.release(channel);
    wake(channel.take_wakes());
    result
}

async fn recv_ref<T, R, F: FnOnce(&T) -> R>(
    consumer: &mut SpmcBroadcastConsumerRef<T>,
    channel: &mut SpmcBroadcast<T>,
    visitor: F,
) -> Result<R, Closed> {
    let mut recv = consumer.recv_ref(channel, visitor);
    let result = poll_fn(|cx| recv.poll(channel, cx.waker())).await;
    recv.release(channel);
    wake(channel.take_wakes());
    result
}

async fn send_shared<T>(
    producer: &mut SpmcBroadcastProducer<T>,
    shared: &mut Shared<T>,
    item: T,
) -> Result<(), T> {
    let mut send = producer.send(shared, item);
    let result = poll_fn(|cx| send.poll(&mut shared.channel, cx.waker())).await;
    send.release(&mut shared.channel);
    wake(shared.channel.take_wakes());
    result
}

async fn recv_shared<T: Clone>(
    consumer: &mut SpmcBroadcastConsumer<T>,
    shared: &mut Shared<T>,
) -> Result<T, Closed> {
    let mut recv = consumer.recv(shared);
    let result = poll_fn(|cx| recv.poll(&mut shared.channel, cx.waker())).await;
    recv.release(&mut shared.channel);
    wake(shared.channel.take_wakes());
    result
}

#[test]
fn recv_waiter_woken_by_send() {
    let mut channel = SpmcBroadcast::new(2);
    let consumer = channel.subscribe_raw();

    let mut recv_fut = channel.recv_raw(consumer);
    let (waker, wake_count) = new_count_waker();

    assert_eq!(recv_fut.poll(&mut channel, &waker), Poll::Pending);
    wake(channel.take_wakes());
    assert_eq!(wake_count.get(), 0);

    assert_eq!(channel.try_send(7), Ok(()));
    wake(channel.take_wakes());
    assert_eq!(wake_count.get(), 1);

    assert_eq!(recv_fut.poll(&mut channel, &waker), Poll::Ready(Ok(7)));
}

#[test]
fn producer_waiter_woken_by_recv_unblock() {
    let mut channel = SpmcBroadcast::new(1);
    let consumer = channel.subscribe_raw();

    assert_eq!(channel.try_send(1), Ok(()));

    let mut send_fut = channel.send(2);
    let (waker, wake_count) = new_count_waker();

    assert_eq!(send_fut.poll(&mut channel, &waker), Poll::Pending);
    assert_eq!(channel.try_recv_raw(consumer), Ok(Some(1)));
    wake(channel.take_wakes());
    assert_eq!(wake_count.get(), 1);
    assert_eq!(send_fut.poll(&mut channel, &waker), Poll::Ready(Ok(())));
}

#[test]
fn producer_waiter_woken_by_unsubscribe_unblock() {
    let mut channel = SpmcBroadcast::new(1);
    let consumer = channel.subscribe_raw();

    assert_eq!(channel.try_send(1), Ok(()));

    let mut send_fut = channel.send(2);
    let (waker, wake_count) = new_count_waker();

    assert_eq!(send_fut.poll(&mut channel, &waker), Poll::Pending);
    channel.unsubscribe_raw(consumer);
    wake(channel.take_wakes());
    assert_eq!(wake_count.get(), 1);
    assert_eq!(send_fut.poll(&mut channel, &waker), Poll::Ready(Ok(())));
}

#[test]
fn block_on_send_then_recv() {
    let mut channel = SpmcBroadcast::new(2);
    let mut consumer = channel.subscribe_ref();

    block_on(async {
        send(&mut channel, 11).await.unwrap();
        assert_eq!(recv_by_ref(&mut consumer, &mut channel).await, Ok(11));
    });
}

#[test]
fn send_blocks_on_full_queue_then_completes_after_lagger_drains() {
    let mut channel = SpmcBroadcast::new(2);
    let lagger = channel.subscribe_raw();
    let fast = channel.subscribe_raw();

    assert_eq!(channel.try_send(1), Ok(()));
    assert_eq!(channel.try_send(2), Ok(()));

    assert_eq!(channel.try_recv_raw(fast), Ok(Some(1)));
    assert_eq!(channel.try_recv_raw(fast), Ok(Some(2)));
    assert_eq!(channel.try_send(3), Err(TrySendError::Full(3)));

    let mut send_fut = channel.send(3);
    let (waker, wake_count) = new_count_waker();

    assert_eq!(send_fut.poll(&mut channel, &waker), Poll::Pending);
    wake(channel.take_wakes());
    assert_eq!(wake_count.get(), 0);

    assert_eq!(channel.try_recv_raw(lagger), Ok(Some(1)));
    wake(channel.take_wakes());
    assert_eq!(wake_count.get(), 1);

    assert_eq!(send_fut.poll(&mut channel, &waker), Poll::Ready(Ok(())));
    assert_eq!(channel.try_recv_raw(fast), Ok(Some(3)));
}

#[test]
fn shrink_to_fit_is_behaviorally_transparent_after_churn() {
    let mut channel = SpmcBroadcast::new(8);

    for round in 0..64 {
        let a = channel.subscribe_raw();
        let b = channel.subscribe_raw();

        assert_eq!(channel.try_send(round), Ok(()));
        assert_eq!(channel.try_recv_raw(a), Ok(Some(round)));
        assert_eq!(channel.try_recv_raw(b), Ok(Some(round)));

        channel.unsubscribe_raw(a);
        channel.unsubscribe_raw(b);
    }

    channel.shrink_to_fit();

    let mut consumer = channel.subscribe_ref();
    block_on(async {
        send(&mut channel, 1234).await.unwrap();
        assert_eq!(recv_by_ref(&mut consumer, &mut channel).await, Ok(1234));
    });
}

#[test]
fn shrink_consumers_to_fit_is_behaviorally_transparent() {
    let mut channel: SpmcBroadcast<i32> = SpmcBroadcast::new(8);
    let a = channel.subscribe_raw();
    let _b = channel.subscribe_raw();
    let _c = channel.subscribe_raw();

    channel.unsubscribe_raw(a);

    channel.shrink_consumers_to_fit();

    assert_eq!(channel.try_send(1), Ok(()));
}

#[derive(Debug, PartialEq)]
struct NoCopy(Vec<u8>);

#[test]
fn try_recv_ref_raw_basic() {
    let mut channel = SpmcBroadcast::new(4);
    let c = channel.subscribe_raw();

    assert!(channel.try_send(NoCopy(vec![1, 2, 3])).is_ok());

    let val = channel.try_recv_ref_raw(c, |item| item.0.clone());
    assert_eq!(val.ok(), Some(vec![1, 2, 3]));

    assert!(matches!(
        channel.try_recv_ref_raw(c, |_| ()),
        Err(TryRecvRefError::Empty(_))
    ));
    channel.unsubscribe_raw(c);
}

#[test]
fn recv_ref_raw_waiter_woken_by_send() {
    let mut channel = SpmcBroadcast::new(2);
    let consumer = channel.subscribe_raw();

    let mut recv_fut = channel.recv_ref_raw(consumer, |item: &NoCopy| item.0.clone());
    let (waker, wake_count) = new_count_waker();

    assert_eq!(recv_fut.poll(&mut channel, &waker), Poll::Pending);
    wake(channel.take_wakes());
    assert_eq!(wake_count.get(), 0);

    assert!(channel.try_send(NoCopy(vec![7])).is_ok());
    wake(channel.take_wakes());
    assert_eq!(wake_count.get(), 1);

    assert_eq!(recv_fut.poll(&mut channel, &waker), Poll::Ready(Ok(vec![7])));
    channel.unsubscribe_raw(consumer);
}

#[test]
fn producer_waiter_woken_by_try_recv_ref_raw_unblock() {
    let mut channel = SpmcBroadcast::new(1);
    let consumer = channel.subscribe_raw();

    assert!(channel.try_send(NoCopy(vec![1])).is_ok());

    let mut send_fut = channel.send(NoCopy(vec![2]));
    let (waker, wake_count) = new_count_waker();

    assert_eq!(send_fut.poll(&mut channel, &waker), Poll::Pending);

    let val = channel.try_recv_ref_raw(consumer, |item| item.0.clone());
    assert_eq!(val.ok(), Some(vec![1]));
    wake(channel.take_wakes());
    assert_eq!(wake_count.get(), 1);

    assert_eq!(send_fut.poll(&mut channel, &waker), Poll::Ready(Ok(())));
    channel.unsubscribe_raw(consumer);
}

#[test]
fn block_on_send_then_recv_ref() {
    let mut channel = SpmcBroadcast::new(2);
    let mut consumer = channel.subscribe_ref();

    block_on(async {
        send(&mut channel, NoCopy(vec![42])).await.unwrap();
        let val = recv_ref(&mut consumer, &mut channel, |item: &NoCopy| item.0[0]).await;
        assert_eq!(val, Ok(42));
    });
}

#[test]
fn consumer_owned_try_recv_ref() {
    let (mut shared, producer, source) = broadcast(4);
    let consumer = source.subscribe(&mut shared);

    assert!(producer.try_send(&mut shared, NoCopy(vec![10, 20])).is_ok());

    let val = consumer.try_recv_ref(&mut shared, |item| item.0.len());
    assert_eq!(val.ok(), Some(2));

    assert!(matches!(
        consumer.try_recv_ref(&mut shared, |_| ()),
        Err(TryRecvRefError::Empty(_))
    ));
}

#[test]
fn channel_send_recv_clone() {
    let (mut shared, producer, source) = broadcast(4);
    let consumer = source.subscribe(&mut shared);

    assert_eq!(producer.try_send(&mut shared, 1), Ok(()));
    assert_eq!(producer.try_send(&mut shared, 2), Ok(()));

    assert_eq!(consumer.try_recv(&mut shared), Ok(Some(1)));
    assert_eq!(consumer.try_recv(&mut shared), Ok(Some(2)));
    assert_eq!(consumer.try_recv(&mut shared), Ok(None));
}

#[test]
fn channel_send_recv_ref_no_clone() {
    let (mut shared, producer, source) = broadcast(4);
    let consumer = source.subscribe(&mut shared);

    assert!(producer.try_send(&mut shared, NoCopy(vec![1, 2])).is_ok());

    let val = consumer.try_recv_ref(&mut shared, |item| item.0.clone());
    assert_eq!(val.ok(), Some(vec![1, 2]));
}

#[test]
fn spmc_channel_async_send_recv() {
    let (mut shared, mut producer, source) = broadcast(2);
    let mut consumer = source.subscribe(&mut shared);

    block_on(async {
        send_shared(&mut producer, &mut shared, 42).await.unwrap();
        assert_eq!(recv_shared(&mut consumer, &mut shared).await, Ok(42));
    });
}

#[test]
fn channel_subscribe_additional_consumers() {
    let (mut shared, producer, source) = broadcast(4);
    let c1 = source.subscribe(&mut shared);
    let c2 = source.subscribe(&mut shared);
    let c3 = source.subscribe(&mut shared);

    assert_eq!(producer.try_send(&mut shared, 7), Ok(()));

    assert_eq!(c1.try_recv(&mut shared), Ok(Some(7)));
    assert_eq!(c2.try_recv(&mut shared), Ok(Some(7)));
    assert_eq!(c3.try_recv(&mut shared), Ok(Some(7)));
}

#[test]
fn spmc_producer_owned_is_not_clone() {
    let (mut shared, producer, _source) = broadcast::<i32>(1);
    assert_eq!(producer.try_send(&mut shared, 1), Ok(()));
}

#[test]
fn spmc_close_then_drain_then_closed() {
    let mut channel = SpmcBroadcast::new(4);
    let c = channel.subscribe_raw();

    assert_eq!(channel.try_send(1), Ok(()));
    assert_eq!(channel.try_send(2), Ok(()));

    channel.close();

    assert_eq!(channel.try_recv_raw(c), Ok(Some(1)));
    assert_eq!(channel.try_recv_raw(c), Ok(Some(2)));

    assert_eq!(channel.try_recv_raw(c), Err(Closed));

    channel.unsubscribe_raw(c);
}

#[test]
fn spmc_close_wakes_pending_recv() {
    let mut channel = SpmcBroadcast::<i32>::new(2);
    let c = channel.subscribe_raw();

    let mut recv_fut = channel.recv_raw(c);
    let (waker, wake_count) = new_count_waker();

    assert_eq!(recv_fut.poll(&mut channel, &waker), Poll::Pending);
    wake(channel.take_wakes());
    assert_eq!(wake_count.get(), 0);

    channel.close();
    wake(channel.take_wakes());
    assert_eq!(wake_count.get(), 1);

    assert_eq!(recv_fut.poll(&mut channel, &waker), Poll::Ready(Err(Closed)));
    channel.unsubscribe_raw(c);
}

#[test]
fn spmc_close_wakes_pending_send() {
    let mut channel = SpmcBroadcast::new(1);
    let _c = channel.subscribe_raw();

    assert_eq!(channel.try_send(1), Ok(()));

    let mut send_fut = channel.send(2);
    let (waker, wake_count) = new_count_waker();

    assert_eq!(send_fut.poll(&mut channel, &waker), Poll::Pending);

    channel.close();
    wake(channel.take_wakes());
    assert_eq!(wake_count.get(), 1);

    assert_eq!(send_fut.poll(&mut channel, &waker), Poll::Ready(Err(2)));
}

#[test]
fn spmc_producer_drop_closes_channel() {
    let (mut shared, producer, source) = broadcast(4);
    let consumer = source.subscribe(&mut shared);

    assert_eq!(producer.try_send(&mut shared, 10), Ok(()));
    assert_eq!(producer.try_send(&mut shared, 20), Ok(()));

    producer.release(&mut shared);

    assert_eq!(consumer.try_recv(&mut shared), Ok(Some(10)));
    assert_eq!(consumer.try_recv(&mut shared), Ok(Some(20)));

    assert_eq!(consumer.try_recv(&mut shared), Err(Closed));
}

#[test]
fn spmc_double_close_is_idempotent() {
    let mut channel = SpmcBroadcast::<i32>::new(2);
    channel.close();
    channel.close();
    assert!(channel.is_closed());
}

#[test]
fn spmc_try_send_after_close_rejected() {
    let mut channel = SpmcBroadcast::new(4);
    let _c = channel.subscribe_raw();

    channel.close();
    assert_eq!(channel.try_send(42), Err(TrySendError::Closed(42)));
}

#[test]
fn close_recv_ref_drains_then_closed() {
    let mut channel = SpmcBroadcast::new(4);
    let c = channel.subscribe_raw();

    assert!(channel.try_send(NoCopy(vec![1, 2])).is_ok());
    assert!(channel.try_send(NoCopy(vec![3])).is_ok());

    channel.close();

    let v1 = channel.try_recv_ref_raw(c, |item| item.0.clone());
    assert_eq!(v1.ok(), Some(vec![1, 2]));

    let v2 = channel.try_recv_ref_raw(c, |item| item.0.clone());
    assert_eq!(v2.ok(), Some(vec![3]));

    assert!(matches!(
        channel.try_recv_ref_raw(c, |_| ()),
        Err(TryRecvRefError::Closed)
    ));

    channel.unsubscribe_raw(c);
}

#[test]
fn spmc_close_async_recv_drains_then_closed() {
    let (mut shared, mut producer, source) = broadcast(4);
    let mut consumer = source.subscribe(&mut shared);

    block_on(async {
        send_shared(&mut producer, &mut shared, 1).await.unwrap();
        send_shared(&mut producer, &mut shared, 2).await.unwrap();

        producer.release(&mut shared);

        assert_eq!(recv_shared(&mut consumer, &mut shared).await, Ok(1));
        assert_eq!(recv_shared(&mut consumer, &mut shared).await, Ok(2));
        assert_eq!(recv_shared(&mut consumer, &mut shared).await, Err(Closed));
    });
}

#[test]
fn close_async_recv_ref_drains_then_closed() {
    let mut channel = SpmcBroadcast::new(4);
    let mut consumer = channel.subscribe_ref();

    block_on(async {
        send(&mut channel, NoCopy(vec![7])).await.unwrap();
        channel.close();

        let val = recv_ref(&mut consumer, &mut channel, |item: &NoCopy| item.0[0]).await;
        assert_eq!(val, Ok(7));

        let val = recv_ref(&mut consumer, &mut channel, |_: &NoCopy| ()).await;
        assert_eq!(val, Err(Closed));
    });
}

#[test]
fn last_receiver_closes_the_channel() {
    let (mut shared, producer, source) = broadcast::<i32>(2);
    let other = source.clone(&mut shared);
    let consumer = other.subscribe(&mut shared);
    assert_eq!(shared.receiver_count, 3);

    source.release(&mut shared);
    other.release(&mut shared);
    assert_eq!(producer.try_send(&mut shared, 1), Ok(()));
    consumer.release(&mut shared);
    assert_eq!(shared.receiver_count, 0);
    assert_eq!(producer.try_send(&mut shared, 2), Err(TrySendError::Closed(2)));
}

#[test]
fn every_consumer_gets_every_item_in_order() {
    let mut channel = SpmcBroadcast::new(2);
    let a = channel.subscribe_raw();
    channel.try_send(1).unwrap();
    let b = channel.subscribe_raw();
    channel.try_send(2).unwrap();
    assert_eq!(channel.try_recv_raw(a), Ok(Some(1)));
    channel.try_send(3).unwrap();
    assert!(channel.can_count());
    for expected in 2..4 {
        assert_eq!(channel.try_recv_raw(a), Ok(Some(expected)));
        assert_eq!(channel.try_recv_raw(b), Ok(Some(expected)));
    }
    assert_eq!(channel.try_recv_raw(a), Ok(None));
    assert_eq!(channel.try_recv_raw(b), Ok(None));
}

#[test]
fn released_receive_does_not_wait() {
    let mut channel = SpmcBroadcast::new(2);
    let c = channel.subscribe_raw();
    let (waker, _) = new_count_waker();
    let mut recv_fut = channel.recv_raw(c);
    assert_eq!(recv_fut.poll(&mut channel, &waker), Poll::Pending);
    recv_fut.release(&mut channel);
    assert_eq!(channel.try_send(1), Ok(()));
    assert!(channel.take_wakes().is_empty());

    assert!(channel.is_subscribed(c));
    let late = channel.recv_raw(c);
    channel.unsubscribe_raw(c);
    assert!(!channel.is_subscribed(c));
    late.release(&mut channel);
}

#[test]
fn all_waiting_consumers_are_woken_in_the_order_of_their_keys() {
    let mut channel = SpmcBroadcast::new(1);
    let (waker, wake_count) = new_count_waker();
    let keys: Vec<_> = (0..20).map(|_| channel.subscribe_raw()).collect();
    for key in &keys {
        assert_eq!(channel.recv_raw(*key).poll(&mut channel, &waker), Poll::Pending);
    }
    assert_eq!(channel.try_send('x'), Ok(()));
    let due = channel.take_wakes();
    assert_eq!(due.len(), 20);
    wake(due);
    assert_eq!(wake_count.get(), 20);
    for key in &keys {
        assert_eq!(channel.try_recv_raw(*key), Ok(Some('x')));
    }
}

#[test]
fn spmc_poll_ready_send_waits_for_the_slowest() {
    let (mut shared, mut producer, source) = broadcast(1);
    let mut consumer = source.subscribe(&mut shared);
    let (waker, wake_count) = new_count_waker();

    assert_eq!(shared.channel.poll_ready_send(&waker), Poll::Ready(Ok(())));
    assert_eq!(producer.start_send(&mut shared, 1), Ok(()));
    assert_eq!(producer.poll_ready(&mut shared, &waker), Poll::Pending);
    assert_eq!(consumer.poll_next(&mut shared, &waker), Poll::Ready(Some(1)));
    wake(shared.channel.take_wakes());
    assert_eq!(wake_count.get(), 1);
    assert_eq!(producer.poll_ready(&mut shared, &waker), Poll::Ready(Ok(())));
    assert_eq!(consumer.poll_next(&mut shared, &waker), Poll::Pending);

    shared.channel.close();
    assert_eq!(producer.poll_ready(&mut shared, &waker), Poll::Ready(Err(Closed)));
    assert_eq!(producer.start_send(&mut shared, 2), Err(Closed));
    assert_eq!(consumer.poll_next(&mut shared, &waker), Poll::Ready(None));
}

#[test]
fn consumer_handles_of_a_held_channel() {
    let mut channel = SpmcBroadcast::new(2);
    let consumer = channel.subscribe_ref();
    channel.try_send(5).unwrap();
    channel.try_send(6).unwrap();
    assert_eq!(consumer.try_recv_ref(&mut channel, |item| item * 2).ok(), Some(10));
    assert_eq!(consumer.try_recv(&mut channel), Ok(Some(6)));
    assert_eq!(consumer.try_recv(&mut channel), Ok(None));
    consumer.release(&mut channel);
    channel.shrink_buffer_to_fit();
    assert_eq!(channel.try_send(7), Ok(()));
}

#[test]
fn handles_shrink_without_other_effect() {
    let (mut shared, producer, source) = broadcast(4);
    let gone = source.subscribe(&mut shared);
    let mut consumer = source.subscribe(&mut shared);
    gone.release(&mut shared);
    producer.try_send(&mut shared, 1).unwrap();
    producer.shrink_buffer_to_fit(&mut shared);
    producer.shrink_consumers_to_fit(&mut shared);
    producer.shrink_to_fit(&mut shared);
    let (waker, _) = new_count_waker();
    let mut recv = consumer.recv_ref(&shared, |item: &i32| item + 1);
    assert_eq!(recv.poll(&mut shared.channel, &waker), Poll::Ready(Ok(2)));
}

#[test]
fn removed_key_is_dead_when_its_slot_is_used_again() {
    let mut channel = SpmcBroadcast::new(2);
    let first = channel.subscribe_raw();
    assert!(channel.is_subscribed(first));
    channel.unsubscribe_raw(first);
    assert!(!channel.is_subscribed(first));

    let second = channel.subscribe_raw();
    assert_ne!(first, second);
    assert!(!channel.is_subscribed(first));
    assert!(channel.is_subscribed(second));

    assert_eq!(channel.try_send(5), Ok(()));
    assert_eq!(channel.try_recv_raw(second), Ok(Some(5)));
    channel.unsubscribe_raw(second);
    assert!(!channel.is_subscribed(second));
}

#[test]
fn ended_receive_of_a_removed_consumer_leaves_the_next_one_waiting() {
    let mut channel = SpmcBroadcast::new(2);
    let first = channel.subscribe_raw();
    let stale_recv = channel.recv_raw(first);
    let stale_recv_ref = channel.recv_ref_raw(first, |x: &i32| *x);
    channel.unsubscribe_raw(first);

    let second = channel.subscribe_raw();
    let mut recv = channel.recv_raw(second);
    let (waker, wake_count) = new_count_waker();
    assert_eq!(recv.poll(&mut channel, &waker), Poll::Pending);

    stale_recv.release(&mut channel);
    stale_recv_ref.release(&mut channel);

    assert_eq!(channel.try_send(8), Ok(()));
    wake(channel.take_wakes());
    assert_eq!(wake_count.get(), 1);
    assert_eq!(recv.poll(&mut channel, &waker), Poll::Ready(Ok(8)));
}

#[test]
fn keys_of_channels_with_different_labels_are_told_apart() {
    let mut one = SpmcBroadcast::<i32>::labelled(2, 1);
    let mut two = SpmcBroadcast::<i32>::labelled(2, 2);
    let of_one = one.subscribe_raw();
    let of_two = two.subscribe_raw();
    assert_ne!(of_one, of_two);
    assert!(one.is_subscribed(of_one));
    assert!(!one.is_subscribed(of_two));
    assert!(two.is_subscribed(of_two));
    assert!(!two.is_subscribed(of_one));

    let recv = one.recv_raw(of_one);
    let mut waiting = two.recv_raw(of_two);
    let (waker, wake_count) = new_count_waker();
    assert_eq!(waiting.poll(&mut two, &waker), Poll::Pending);
    recv.release(&mut two);
    two.close();
    wake(two.take_wakes());
    assert_eq!(wake_count.get(), 1);
}

#[test]
fn spmc_waiting_waker_outlives_what_others_do() {
    let mut channel = SpmcBroadcast::new(1);
    let kept = channel.subscribe_raw();
    let other = channel.subscribe_raw();
    let mut waiting = channel.recv_raw(kept);
    let (waker, wake_count) = new_count_waker();
    assert_eq!(waiting.poll(&mut channel, &waker), Poll::Pending);

    let (other_waker, _) = new_count_waker();
    let mut other_recv = channel.recv_raw(other);
    assert_eq!(other_recv.poll(&mut channel, &other_waker), Poll::Pending);
    other_recv.release(&mut channel);
    channel.unsubscribe_raw(other);
    channel.shrink_to_fit();
    assert_eq!(channel.poll_ready_send(&other_waker), Poll::Ready(Ok(())));
    wake(channel.take_wakes());
    assert_eq!(wake_count.get(), 0);

    assert_eq!(channel.try_send(3), Ok(()));
    assert_eq!(channel.try_send(4), Err(TrySendError::Full(4)));
    channel.close();
    wake(channel.take_wakes());
    assert_eq!(wake_count.get(), 1);
    assert_eq!(waiting.poll(&mut channel, &waker), Poll::Ready(Ok(3)));
}

#[test]
fn spmc_is_open_while_a_receiver_is_left() {
    let (mut shared, producer, source) = broadcast(2);
    let first = source.subscribe(&mut shared);
    source.release(&mut shared);
    assert_eq!(producer.try_send(&mut shared, 1), Ok(()));
    assert_eq!(shared.receiver_count, 1);
    assert_eq!(first.try_recv(&mut shared), Ok(Some(1)));
    assert!(!shared.channel.is_closed());
    first.release(&mut shared);
    assert_eq!(shared.receiver_count, 0);
    assert!(shared.channel.is_closed());
    assert_eq!(producer.try_send(&mut shared, 2), Err(TrySendError::Closed(2)));
}
