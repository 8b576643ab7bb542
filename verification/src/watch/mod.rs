//! Values whose changes can be observed.

pub mod mpmc;
pub mod mpsc;

pub use mpmc::{
    watch as mpmc_watch, MpmcWatchRef, MpmcWatchRefConsumer, MpmcWatchRefProducer,
    MpmcWatchRefSource,
};
pub use mpsc::{watch as mpsc_watch, MpscWatchRef, MpscWatchRefConsumer, MpscWatchRefProducer};
