//! The element's tunables, read when the queue is prepared.
use vstd::prelude::*;

use crate::data_queue::Limits;

verus! {

pub const DEFAULT_MAX_SIZE_BUFFERS: u32 = 200;

pub const DEFAULT_MAX_SIZE_BYTES: u32 = 1024 * 1024;

/// One second, in nanoseconds.
pub const DEFAULT_MAX_SIZE_TIME: u64 = 1_000_000_000;

pub const DEFAULT_CONTEXT_WAIT: u32 = 0;

#[derive(Debug, Clone)]
pub struct Settings {
    /// Item-count limit, 0 for unlimited.
    pub max_size_buffers: u32,
    /// Byte limit, 0 for unlimited.
    pub max_size_bytes: u32,
    /// Time-span limit in nanoseconds, 0 for unlimited.
    pub max_size_time: u64,
    /// Name of the shared execution context to join or create; empty for an
    /// exclusive one.
    pub context: String,
    /// Minimum polling interval of that context, in milliseconds.
    pub context_wait: u32,
}

impl Default for Settings {
    fn default() -> (r: Settings)
        ensures
            r.max_size_buffers == DEFAULT_MAX_SIZE_BUFFERS,
            r.max_size_bytes == DEFAULT_MAX_SIZE_BYTES,
            r.max_size_time == DEFAULT_MAX_SIZE_TIME,
            r.context@ == Seq::<char>::empty(),
            r.context_wait == DEFAULT_CONTEXT_WAIT,
    {
        Settings {
            max_size_buffers: DEFAULT_MAX_SIZE_BUFFERS,
            max_size_bytes: DEFAULT_MAX_SIZE_BYTES,
            max_size_time: DEFAULT_MAX_SIZE_TIME,
            context: String::new(),
            context_wait: DEFAULT_CONTEXT_WAIT,
        }
    }
}

/// A limit of zero means unlimited.
pub open spec fn limit_of<N>(v: N, is_zero: bool) -> Option<N> {
    if is_zero {
        None
    } else {
        Some(v)
    }
}

/// The queue limits that a set of settings asks for.
pub open spec fn limits_of(s: Settings) -> Limits {
    Limits {
        max_buffers: limit_of(s.max_size_buffers, s.max_size_buffers == 0),
        max_bytes: limit_of(s.max_size_bytes, s.max_size_bytes == 0),
        max_time: limit_of(s.max_size_time, s.max_size_time == 0),
    }
}

impl Settings {
    pub fn limits(&self) -> (r: Limits)
        ensures
            r == limits_of(*self),
    {
        Limits {
            max_buffers: if self.max_size_buffers == 0 {
                None
            } else {
                Some(self.max_size_buffers)
            },
            max_bytes: if self.max_size_bytes == 0 {
                None
            } else {
                Some(self.max_size_bytes)
            },
            max_time: if self.max_size_time == 0 {
                None
            } else {
                Some(self.max_size_time)
            },
        }
    }
}

} // verus!
