//! A thread-sharing queue engine: a bounded, flow-controlled buffer between an
//! upstream producer and a downstream consumer, with an unbounded overflow
//! stage, a cooperative drain task and a start/stop/flush state machine.
//!
//! Everything here is a plain state machine: the caller owns the threads, the
//! locks, the execution contexts and the wire types, and feeds the engine
//! plain values.
use vstd::prelude::*;

pub mod data_queue;
pub mod guarantees;
pub mod item;
pub mod queue;
pub mod settings;

pub use data_queue::{DataQueue, DataQueueModel, DataQueueState, Limits, PopResult};
pub use item::{BufferMeta, EventInfo, EventKind, Item, ItemKind};
pub use queue::{
    scheduling_modes_without_pull, Admission, DrainStep, FlowError, FlushAction, PadMode,
    PrepareError, Queue, TaskAction,
};
pub use settings::Settings;

verus! {

} // verus!
