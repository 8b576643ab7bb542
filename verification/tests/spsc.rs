use std::future::poll_fn;
use std::task::{Poll, Waker};

use bachelor::channel::spsc::{
    channel, Closed, SpscChannel, SpscChannelConsumer, SpscChannelProducer, TrySendError,
};
use futures_executor::block_on;
use futures_test::task::new_count_waker;

fn wake(wakers: Vec<Waker>) {
    for waker in wakers {
        waker.wake();
    }
}

async fn send<T>(
    producer: &mut SpscChannelProducer<T>,
    ch: &mut SpscChannel<T>,
    item: T,
) -> Result<(), T> {
    let mut send = producer.send(ch, item);
    let result = poll_fn(|cx| send.poll(ch, cx.waker())).await;
    send.release(ch);
    wake(ch.take_wakes());
    result
}

async fn recv<T>(
    consumer: &mut SpscChannelConsumer<T>,
    ch: &mut SpscChannel<T>,
) -> Result<T, Closed> {
    let mut recv = consumer.recv(ch);
    let result = poll_fn(|cx| recv.poll(ch, cx.waker())).await;
    recv.release(ch);
    wake(ch.take_wakes());
    result
}

#[test]
fn spsc_try_send_try_recv_roundtrip() {
    let mut ch = SpscChannel::new(4);

    assert_eq!(ch.try_send(1), Ok(()));
    assert_eq!(ch.try_send(2), Ok(()));

    assert_eq!(ch.try_recv(), Ok(Some(1)));
    assert_eq!(ch.try_recv(), Ok(Some(2)));
    assert_eq!(ch.try_recv(), Ok(None));
}

#[test]
fn spsc_full_rejects_send() {
    let mut ch = SpscChannel::new(2);

    assert_eq!(ch.try_send(1), Ok(()));
    assert_eq!(ch.try_send(2), Ok(()));
    assert_eq!(ch.try_send(3), Err(TrySendError::Full(3)));
}

#[test]
fn spsc_consumer_waker_woken_by_send() {
    let mut ch = SpscChannel::new(2);

    let mut recv_fut = ch.recv();
    let (waker, wake_count) = new_count_waker();

    assert_eq!(recv_fut.poll(&mut ch, &waker), Poll::Pending);
    wake(ch.take_wakes());
    assert_eq!(wake_count.get(), 0);

    assert_eq!(ch.try_send(7), Ok(()));
    wake(ch.take_wakes());
    assert_eq!(wake_count.get(), 1);

    assert_eq!(recv_fut.poll(&mut ch, &waker), Poll::Ready(Ok(7)));
}

#[test]
fn spsc_producer_waker_woken_by_recv_when_full() {
    let mut ch = SpscChannel::new(1);

    assert_eq!(ch.try_send(1), Ok(()));

    let mut send_fut = ch.send(2);
    let (waker, wake_count) = new_count_waker();

    assert_eq!(send_fut.poll(&mut ch, &waker), Poll::Pending);
    wake(ch.take_wakes());
    assert_eq!(wake_count.get(), 0);

    assert_eq!(ch.try_recv(), Ok(Some(1)));
    wake(ch.take_wakes());
    assert_eq!(wake_count.get(), 1);

    assert_eq!(send_fut.poll(&mut ch, &waker), Poll::Ready(Ok(())));
}

#[test]
fn spsc_close_then_drain_then_closed() {
    let mut ch = SpscChannel::new(4);

    assert_eq!(ch.try_send(1), Ok(()));
    assert_eq!(ch.try_send(2), Ok(()));

    ch.close();

    assert_eq!(ch.try_recv(), Ok(Some(1)));
    assert_eq!(ch.try_recv(), Ok(Some(2)));

    assert_eq!(ch.try_recv(), Err(Closed));
}

#[test]
fn spsc_close_wakes_pending_recv() {
    let mut ch = SpscChannel::<i32>::new(2);

    let mut recv_fut = ch.recv();
    let (waker, wake_count) = new_count_waker();

    assert_eq!(recv_fut.poll(&mut ch, &waker), Poll::Pending);
    wake(ch.take_wakes());
    assert_eq!(wake_count.get(), 0);

    ch.close();
    wake(ch.take_wakes());
    assert_eq!(wake_count.get(), 1);

    assert_eq!(recv_fut.poll(&mut ch, &waker), Poll::Ready(Err(Closed)));
}

#[test]
fn spsc_close_wakes_pending_send() {
    let mut ch = SpscChannel::new(1);

    assert_eq!(ch.try_send(1), Ok(()));

    let mut send_fut = ch.send(2);
    let (waker, wake_count) = new_count_waker();

    assert_eq!(send_fut.poll(&mut ch, &waker), Poll::Pending);

    ch.close();
    wake(ch.take_wakes());
    assert_eq!(wake_count.get(), 1);

    assert_eq!(send_fut.poll(&mut ch, &waker), Poll::Ready(Err(2)));
}

#[test]
fn spsc_try_send_after_close_rejected() {
    let mut ch = SpscChannel::new(4);
    ch.close();
    assert_eq!(ch.try_send(42), Err(TrySendError::Closed(42)));
}

#[test]
fn spsc_double_close_is_idempotent() {
    let mut ch = SpscChannel::<i32>::new(2);
    ch.close();
    ch.close();
    assert!(ch.is_closed());
}

#[test]
fn spsc_channel_send_recv() {
    let (mut ch, producer, consumer) = channel(4);

    assert_eq!(producer.try_send(&mut ch, 1), Ok(()));
    assert_eq!(producer.try_send(&mut ch, 2), Ok(()));

    assert_eq!(consumer.try_recv(&mut ch), Ok(Some(1)));
    assert_eq!(consumer.try_recv(&mut ch), Ok(Some(2)));
    assert_eq!(consumer.try_recv(&mut ch), Ok(None));
}

#[test]
fn spsc_channel_async_send_recv() {
    let (mut ch, mut producer, mut consumer) = channel(2);

    block_on(async {
        send(&mut producer, &mut ch, 42).await.unwrap();
        assert_eq!(recv(&mut consumer, &mut ch).await, Ok(42));
    });
}

#[test]
fn spsc_producer_drop_closes_channel() {
    let (mut ch, producer, consumer) = channel(4);

    assert_eq!(producer.try_send(&mut ch, 10), Ok(()));
    assert_eq!(producer.try_send(&mut ch, 20), Ok(()));

    producer.release(&mut ch);

    assert_eq!(consumer.try_recv(&mut ch), Ok(Some(10)));
    assert_eq!(consumer.try_recv(&mut ch), Ok(Some(20)));

    assert_eq!(consumer.try_recv(&mut ch), Err(Closed));
}

#[test]
fn spsc_consumer_drop_closes_channel() {
    let (mut ch, producer, consumer) = channel::<i32>(4);

    consumer.release(&mut ch);

    assert_eq!(producer.try_send(&mut ch, 1), Err(TrySendError::Closed(1)));
}

#[test]
fn spsc_close_async_recv_drains_then_closed() {
    let (mut ch, mut producer, mut consumer) = channel(4);

    block_on(async {
        send(&mut producer, &mut ch, 1).await.unwrap();
        send(&mut producer, &mut ch, 2).await.unwrap();

        producer.release(&mut ch);

        assert_eq!(recv(&mut consumer, &mut ch).await, Ok(1));
        assert_eq!(recv(&mut consumer, &mut ch).await, Ok(2));
        assert_eq!(recv(&mut consumer, &mut ch).await, Err(Closed));
    });
}

#[test]
fn spsc_producer_owned_is_not_clone() {
    let (mut ch, producer, _consumer) = channel::<i32>(1);
    assert_eq!(producer.try_send(&mut ch, 1), Ok(()));
}

#[test]
fn spsc_consumer_owned_is_not_clone() {
    let (mut ch, _producer, consumer) = channel::<i32>(1);
    assert_eq!(consumer.try_recv(&mut ch), Ok(None));
}

#[test]
fn spsc_send_blocks_on_full_then_completes_after_recv() {
    let (mut ch, mut producer, mut consumer) = channel(2);

    block_on(async {
        send(&mut producer, &mut ch, 1).await.unwrap();
        send(&mut producer, &mut ch, 2).await.unwrap();

        let mut send_fut = producer.send(&ch, 3);
        let (waker, wake_count) = new_count_waker();

        assert_eq!(send_fut.poll(&mut ch, &waker), Poll::Pending);

        assert_eq!(recv(&mut consumer, &mut ch).await, Ok(1));
        assert_eq!(wake_count.get(), 1);

        assert_eq!(send_fut.poll(&mut ch, &waker), Poll::Ready(Ok(())));
    });
}

#[test]
fn spsc_shrink_to_fit_is_behaviorally_transparent() {
    let (mut ch, mut producer, mut consumer) = channel(8);

    block_on(async {
        for i in 0..64 {
            send(&mut producer, &mut ch, i).await.unwrap();
            assert_eq!(recv(&mut consumer, &mut ch).await, Ok(i));
        }

        producer.shrink_to_fit(&mut ch);

        send(&mut producer, &mut ch, 999).await.unwrap();
        assert_eq!(recv(&mut consumer, &mut ch).await, Ok(999));
    });
}

#[test]
fn spsc_close_wakes_each_task_once() {
    let mut ch = SpscChannel::<i32>::new(1);
    let (consumer_waker, consumer_count) = new_count_waker();
    assert_eq!(ch.recv().poll(&mut ch, &consumer_waker), Poll::Pending);
    ch.close();
    ch.close();
    let due = ch.take_wakes();
    assert_eq!(due.len(), 1);
    wake(due);
    assert_eq!(consumer_count.get(), 1);
    assert!(ch.take_wakes().is_empty());
}

#[test]
fn spsc_released_futures_do_not_wait() {
    let mut ch = SpscChannel::new(1);
    let (waker, wake_count) = new_count_waker();

    let mut recv_fut = ch.recv();
    assert_eq!(recv_fut.poll(&mut ch, &waker), Poll::Pending);
    recv_fut.release(&mut ch);
    assert_eq!(ch.try_send(1), Ok(()));
    assert!(ch.take_wakes().is_empty());

    let mut send_fut = ch.send(2);
    assert_eq!(send_fut.poll(&mut ch, &waker), Poll::Pending);
    send_fut.release(&mut ch);
    assert_eq!(ch.try_recv(), Ok(Some(1)));
    assert!(ch.take_wakes().is_empty());
    assert_eq!(wake_count.get(), 0);
}

#[test]
fn spsc_later_poll_replaces_the_waker() {
    let mut ch = SpscChannel::new(1);
    let (first, first_count) = new_count_waker();
    let (second, second_count) = new_count_waker();
    let mut recv_fut = ch.recv();
    assert_eq!(recv_fut.poll(&mut ch, &first), Poll::Pending);
    assert_eq!(recv_fut.poll(&mut ch, &second), Poll::Pending);
    assert_eq!(ch.try_send(1), Ok(()));
    wake(ch.take_wakes());
    assert_eq!((first_count.get(), second_count.get()), (0, 1));
}

#[test]
fn spsc_poll_recv_yields_items_then_none() {
    let mut ch = SpscChannel::new(2);
    let (waker, wake_count) = new_count_waker();

    assert_eq!(ch.poll_recv(&waker), Poll::Pending);
    assert_eq!(ch.try_send(1), Ok(()));
    wake(ch.take_wakes());
    assert_eq!(wake_count.get(), 1);

    ch.close();
    assert_eq!(ch.poll_recv(&waker), Poll::Ready(Some(1)));
    assert_eq!(ch.poll_recv(&waker), Poll::Ready(None));
}

#[test]
fn spsc_poll_ready_send_waits_for_room() {
    let (mut ch, mut producer, mut consumer) = channel(1);
    let (waker, wake_count) = new_count_waker();

    assert_eq!(ch.poll_ready_send(&waker), Poll::Ready(Ok(())));
    assert_eq!(producer.poll_ready(&mut ch, &waker), Poll::Ready(Ok(())));
    assert_eq!(producer.start_send(&mut ch, 1), Ok(()));
    assert_eq!(producer.poll_ready(&mut ch, &waker), Poll::Pending);

    assert_eq!(consumer.poll_next(&mut ch, &waker), Poll::Ready(Some(1)));
    wake(ch.take_wakes());
    assert_eq!(wake_count.get(), 1);
    assert_eq!(producer.poll_ready(&mut ch, &waker), Poll::Ready(Ok(())));

    consumer.release(&mut ch);
    assert_eq!(producer.poll_ready(&mut ch, &waker), Poll::Ready(Err(Closed)));
    assert_eq!(producer.start_send(&mut ch, 2), Err(Closed));
}

#[test]
fn spsc_more_wakers_are_due_than_are_held_inline() {
    let mut ch = SpscChannel::new(1);
    let (waker, wake_count) = new_count_waker();
    for i in 0..40 {
        let mut recv_fut = ch.recv();
        assert_eq!(recv_fut.poll(&mut ch, &waker), Poll::Pending);
        assert_eq!(ch.try_send(i), Ok(()));
        assert_eq!(recv_fut.poll(&mut ch, &waker), Poll::Ready(Ok(i)));
    }
    let due = ch.take_wakes();
    assert_eq!(due.len(), 40);
    wake(due);
    assert_eq!(wake_count.get(), 40);
}

#[test]
fn spsc_waiting_waker_outlives_what_the_other_side_does() {
    let mut ch = SpscChannel::new(1);
    let (producer_waker, producer_count) = new_count_waker();
    let (consumer_waker, consumer_count) = new_count_waker();

    assert_eq!(ch.poll_recv(&consumer_waker), Poll::Pending);
    assert_eq!(ch.poll_ready_send(&producer_waker), Poll::Ready(Ok(())));
    ch.send(0).release(&mut ch);
    ch.shrink_to_fit();
    wake(ch.take_wakes());
    assert_eq!(consumer_count.get(), 0);

    assert_eq!(ch.try_send(1), Ok(()));
    assert_eq!(ch.poll_ready_send(&producer_waker), Poll::Pending);
    ch.recv().release(&mut ch);
    ch.shrink_to_fit();
    assert_eq!(ch.try_send(2), Err(TrySendError::Full(2)));
    assert_eq!(ch.poll_recv(&consumer_waker), Poll::Ready(Some(1)));
    wake(ch.take_wakes());
    assert_eq!(consumer_count.get(), 1);
    assert_eq!(producer_count.get(), 1);
}
