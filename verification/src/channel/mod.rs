//! Bounded channels.
//!
//! A channel holds a bounded queue, the wakers of the tasks that wait for it,
//! and the list of wakers that are due. What a waiting `send` or `recv` keeps
//! between two polls is a value of its own.

pub mod mpsc;
pub mod mpsc_channel_sink;
pub mod pipe;
pub mod spsc;

pub use mpsc::{channel as mpsc_channel, MpscChannel, MpscChannelConsumer, MpscChannelProducer};
pub use mpsc_channel_sink::MpscChannelSink;
pub use spsc::{channel as spsc_channel, SpscChannel, SpscChannelConsumer, SpscChannelProducer};
