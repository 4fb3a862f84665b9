//! The items that flow through the queue, described by what the queue reads of
//! them: how many buffers and bytes they stand for, and their timestamps.
use vstd::prelude::*;

verus! {

/// The kinds of control event the queue tells apart.
#[derive(Clone, Copy, Debug, PartialEq, Eq, Structural)]
pub enum EventKind {
    FlushStart,
    FlushStop,
    Segment,
    Eos,
    Other,
}

/// What the queue needs to know of a control event.
#[derive(Clone, Copy, Debug, PartialEq, Eq, Structural)]
pub struct EventInfo {
    pub kind: EventKind,
    /// Sticky events describe persistent stream state (caps, tags, ...).
    pub sticky: bool,
}

#[derive(Clone, Copy, Debug, PartialEq, Eq, Structural)]
pub enum ItemKind {
    Buffer,
    BufferList,
    Event(EventInfo),
}

/// One constituent buffer of an item: its size in bytes, its timestamp
/// (decoding time, else presentation time) and its duration.
#[derive(Clone, Copy, Debug, PartialEq, Eq, Structural)]
pub struct BufferMeta {
    pub size: u32,
    pub ts: Option<u64>,
    pub duration: Option<u64>,
}

/// An opaque payload with the figures the queue accounts for it.
#[derive(Debug)]
pub struct Item<T> {
    pub kind: ItemKind,
    /// Number of buffers the item stands for.
    pub count: u32,
    /// Number of bytes the item stands for.
    pub bytes: u64,
    /// Start timestamp, if any.
    pub start: Option<u64>,
    /// End timestamp, if any.
    pub end: Option<u64>,
    pub payload: T,
}

/// `ts + duration`, held at `u64::MAX` where the sum would not fit.
pub open spec fn end_of(ts: u64, duration: Option<u64>) -> u64 {
    let d: u64 = match duration {
        Some(d) => d,
        None => 0,
    };
    if ts as int + d as int > u64::MAX as int {
        u64::MAX
    } else {
        (ts + d) as u64
    }
}

/// The end timestamp of one buffer, where it has a timestamp.
pub open spec fn buffer_end(b: BufferMeta) -> Option<u64> {
    match b.ts {
        Some(ts) => Some(end_of(ts, b.duration)),
        None => None,
    }
}

/// Sum of the sizes of the buffers.
pub open spec fn total_size(parts: Seq<BufferMeta>) -> int
    decreases parts.len(),
{
    if parts.len() == 0 {
        0
    } else {
        total_size(parts.drop_last()) + parts.last().size as int
    }
}

/// The timestamp of the first buffer that has one.
pub open spec fn first_ts(parts: Seq<BufferMeta>) -> Option<u64>
    decreases parts.len(),
{
    if parts.len() == 0 {
        None
    } else {
        match parts[0].ts {
            Some(ts) => Some(ts),
            None => first_ts(parts.drop_first()),
        }
    }
}

/// The end timestamp of the last buffer that has a timestamp.
pub open spec fn last_end(parts: Seq<BufferMeta>) -> Option<u64>
    decreases parts.len(),
{
    if parts.len() == 0 {
        None
    } else {
        match buffer_end(parts.last()) {
            Some(e) => Some(e),
            None => last_end(parts.drop_last()),
        }
    }
}

/// An event that is forwarded downstream, not dropped, when the queue is
/// cleared: sticky, and neither a segment nor an end-of-stream.
pub open spec fn survives_clear<T>(item: Item<T>) -> bool {
    match item.kind {
        ItemKind::Event(ev) => ev.sticky && ev.kind != EventKind::Segment && ev.kind
            != EventKind::Eos,
        _ => false,
    }
}

/// A control event other than end-of-stream: its overflow drain is deferred.
pub open spec fn is_deferrable<T>(item: Item<T>) -> bool {
    match item.kind {
        ItemKind::Event(ev) => ev.kind != EventKind::Eos,
        _ => false,
    }
}

fn end_ts(ts: u64, duration: Option<u64>) -> (r: u64)
    ensures
        r == end_of(ts, duration),
{
    let d: u64 = match duration {
        Some(d) => d,
        None => 0,
    };
    if d > u64::MAX - ts {
        u64::MAX
    } else {
        ts + d
    }
}

impl<T> Item<T> {
    /// A single buffer of `size` bytes.
    pub fn buffer(payload: T, meta: BufferMeta) -> (r: Item<T>)
        ensures
            r.kind == ItemKind::Buffer,
            r.count == 1,
            r.bytes == meta.size,
            r.start == meta.ts,
            r.end == buffer_end(meta),
            r.payload == payload,
    {
        let end = match meta.ts {
            Some(ts) => Some(end_ts(ts, meta.duration)),
            None => None,
        };
        Item { kind: ItemKind::Buffer, count: 1, bytes: meta.size as u64, start: meta.ts, end, payload }
    }

    /// A batch of buffers: one count per buffer, the sum of their sizes, the
    /// first timestamp found and the last end timestamp found.
    pub fn buffer_list(payload: T, parts: &Vec<BufferMeta>) -> (r: Item<T>)
        requires
            parts@.len() <= u32::MAX,
        ensures
            r.kind == ItemKind::BufferList,
            r.count == parts@.len(),
            r.bytes == total_size(parts@),
            r.start == first_ts(parts@),
            r.end == last_end(parts@),
            r.payload == payload,
    {
        let n = parts.len();
        let mut bytes: u64 = 0;
        let mut i: usize = 0;
        while i < n
            invariant
                n == parts@.len(),
                n <= u32::MAX,
                i <= n,
                bytes == total_size(parts@.take(i as int)),
                bytes <= i * (u32::MAX as int),
            decreases n - i,
        {
            assert(parts@.take(i + 1).drop_last() == parts@.take(i as int));
            assert(bytes + parts[i as int].size <= (i + 1) * (u32::MAX as int)) by (nonlinear_arith)
                requires
                    bytes <= i * (u32::MAX as int),
                    parts[i as int].size <= u32::MAX,
            ;
            assert((i + 1) * (u32::MAX as int) <= u64::MAX) by (nonlinear_arith)
                requires
                    i < n,
                    n <= u32::MAX,
            ;
            bytes = bytes + parts[i].size as u64;
            i = i + 1;
        }
        assert(parts@.take(n as int) == parts@);
        let mut start: Option<u64> = None;
        let mut j: usize = n;
        while j > 0
            invariant
                n == parts@.len(),
                j <= n,
                start == first_ts(parts@.skip(j as int)),
            decreases j,
        {
            j = j - 1;
            assert(parts@.skip(j as int).drop_first() == parts@.skip(j + 1));
            if parts[j].ts.is_some() {
                start = parts[j].ts;
            }
        }
        assert(parts@.skip(0) == parts@);
        let mut end: Option<u64> = None;
        let mut k: usize = 0;
        while k < n
            invariant
                n == parts@.len(),
                k <= n,
                end == last_end(parts@.take(k as int)),
            decreases n - k,
        {
            assert(parts@.take(k + 1).drop_last() == parts@.take(k as int));
            match parts[k].ts {
                Some(ts) => {
                    end = Some(end_ts(ts, parts[k].duration));
                },
                None => {},
            }
            k = k + 1;
        }
        assert(parts@.take(n as int) == parts@);
        Item { kind: ItemKind::BufferList, count: n as u32, bytes, start, end, payload }
    }

    /// A serialized control event: no buffers, no bytes, no timestamps.
    pub fn event(payload: T, info: EventInfo) -> (r: Item<T>)
        ensures
            r.kind == ItemKind::Event(info),
            r.count == 0,
            r.bytes == 0,
            r.start.is_none(),
            r.end.is_none(),
            r.payload == payload,
    {
        Item { kind: ItemKind::Event(info), count: 0, bytes: 0, start: None, end: None, payload }
    }

    /// Buffers and bytes that the item stands for.
    pub fn size(&self) -> (r: (u32, u64))
        ensures
            r == (self.count, self.bytes),
    {
        (self.count, self.bytes)
    }

    pub fn timestamp(&self) -> (r: Option<u64>)
        ensures
            r == self.start,
    {
        self.start
    }

    pub fn timestamp_end(&self) -> (r: Option<u64>)
        ensures
            r == self.end,
    {
        self.end
    }

    pub fn is_deferrable(&self) -> (r: bool)
        ensures
            r == is_deferrable(*self),
    {
        match self.kind {
            ItemKind::Event(ev) => !matches!(ev.kind, EventKind::Eos),
            _ => false,
        }
    }

    pub fn survives_clear(&self) -> (r: bool)
        ensures
            r == survives_clear(*self),
    {
        match self.kind {
            ItemKind::Event(ev) => ev.sticky && !matches!(ev.kind, EventKind::Segment)
                && !matches!(ev.kind, EventKind::Eos),
            _ => false,
        }
    }
}

} // verus!
