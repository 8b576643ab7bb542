//! Bounded broadcast channels.

pub mod delivery;
pub mod spmc;
pub mod waking;

pub use spmc::{
    broadcast as spmc_broadcast, SpmcBroadcast, SpmcBroadcastConsumer, SpmcBroadcastConsumerRef,
    SpmcBroadcastProducer, SpmcBroadcastSource,
};
