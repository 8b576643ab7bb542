//! Latched signals.
//!
//! A signal remembers that it was notified until that was observed. The finite
//! ones can also be closed.

pub mod mpmc_finite_latched;
pub mod mpmc_latched;
pub mod mpsc_finite_latched;
pub mod mpsc_latched;

pub use mpmc_finite_latched::{
    signal as mpmc_finite_latched_signal, MpmcFiniteLatchedSignal, MpmcFiniteLatchedSignalConsumer,
    MpmcFiniteLatchedSignalProducer, MpmcFiniteLatchedSignalSource, Wait as MpmcFiniteLatchedWait,
};
pub use mpmc_latched::{
    signal as mpmc_latched_signal, MpmcLatchedSignal, MpmcLatchedSignalConsumer,
    MpmcLatchedSignalProducer, MpmcLatchedSignalSource, Wait as MpmcLatchedWait,
};
pub use mpsc_finite_latched::{
    signal as mpsc_finite_latched_signal, MpscFiniteLatchedSignal, MpscFiniteLatchedSignalConsumer,
    MpscFiniteLatchedSignalProducer, Wait as MpscFiniteLatchedWait,
};
pub use mpsc_latched::{
    signal as mpsc_latched_signal, MpscLatchedSignal, MpscLatchedSignalConsumer,
    MpscLatchedSignalProducer, Wait as MpscLatchedWait,
};
