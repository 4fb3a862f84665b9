//! The bounded item queue: an ordered buffer of items with three optional
//! limits (buffers, bytes, time span) and a three-state run switch.
use std::collections::VecDeque;
use vstd::prelude::*;

use crate::item::{survives_clear, Item};

verus! {

/// Whether `pop` hands out items, waits, or reports that the queue stopped.
#[derive(Clone, Copy, Debug, PartialEq, Eq, Structural)]
pub enum DataQueueState {
    Paused,
    Started,
    Stopped,
}

/// Capacity limits; `None` means unlimited in that dimension.
#[derive(Clone, Copy, Debug, PartialEq, Eq, Structural)]
pub struct Limits {
    pub max_buffers: Option<u32>,
    pub max_bytes: Option<u32>,
    pub max_time: Option<u64>,
}

/// What `pop` finds.
#[derive(Debug)]
pub enum PopResult<T> {
    /// The oldest item, now removed.
    Item(Item<T>),
    /// Nothing to hand out now: the queue is empty or paused.
    Pending,
    /// The queue has been stopped.
    Stopped,
}

/// The abstract content of a `DataQueue`.
pub ghost struct DataQueueModel<T> {
    pub state: DataQueueState,
    pub items: Seq<Item<T>>,
    pub limits: Limits,
}

/// Buffers held by a sequence of items.
pub open spec fn total_count<T>(items: Seq<Item<T>>) -> int
    decreases items.len(),
{
    if items.len() == 0 {
        0
    } else {
        total_count(items.drop_last()) + items.last().count as int
    }
}

/// Bytes held by a sequence of items.
pub open spec fn total_bytes<T>(items: Seq<Item<T>>) -> int
    decreases items.len(),
{
    if items.len() == 0 {
        0
    } else {
        total_bytes(items.drop_last()) + items.last().bytes as int
    }
}

/// The start timestamp of the oldest item that has one.
pub open spec fn first_start<T>(items: Seq<Item<T>>) -> Option<u64>
    decreases items.len(),
{
    if items.len() == 0 {
        None
    } else {
        match first_start(items.drop_last()) {
            Some(ts) => Some(ts),
            None => items.last().start,
        }
    }
}

/// A queue holding `held` in a dimension with limit `max` turns away an item
/// adding `add`: it is full already, or the item would carry it beyond the
/// limit.
pub open spec fn refuses(max: Option<u64>, held: int, add: int) -> bool {
    match max {
        Some(m) => held >= m as int || held + add > m as int,
        None => false,
    }
}

/// `level` goes beyond the limit `max`, where one is set.
pub open spec fn over_limit(max: Option<u64>, level: int) -> bool {
    match max {
        Some(m) => level > m as int,
        None => false,
    }
}

pub open spec fn widen(max: Option<u32>) -> Option<u64> {
    match max {
        Some(m) => Some(m as u64),
        None => None,
    }
}

/// Distance between the oldest start timestamp and a new end timestamp.
pub open spec fn time_level(ts: Option<u64>, ts_end: Option<u64>) -> int {
    match (ts, ts_end) {
        (Some(a), Some(b)) => if a > b {
            a - b
        } else {
            b - a
        },
        _ => 0,
    }
}

/// No limit turns `item` away from a queue that holds `items` (nor would the
/// running totals leave their range).
pub open spec fn within_limits<T>(items: Seq<Item<T>>, limits: Limits, item: Item<T>) -> bool {
    &&& !refuses(widen(limits.max_buffers), total_count(items), item.count as int)
    &&& !refuses(widen(limits.max_bytes), total_bytes(items), item.bytes as int)
    &&& !over_limit(limits.max_time, time_level(first_start(items), item.end))
    &&& total_count(items) + item.count <= u64::MAX
    &&& total_bytes(items) + item.bytes <= u64::MAX
}

/// The queue takes `item`: no limit turns it away, or the queue is empty (an
/// empty queue never turns an item away, else that item could never enter).
pub open spec fn admits<T>(items: Seq<Item<T>>, limits: Limits, item: Item<T>) -> bool {
    items.len() == 0 || within_limits(items, limits, item)
}

pub open spec fn after_push<T>(m: DataQueueModel<T>, item: Item<T>) -> DataQueueModel<T> {
    if admits(m.items, m.limits, item) {
        DataQueueModel { items: m.items.push(item), ..m }
    } else {
        m
    }
}

pub open spec fn popped<T>(m: DataQueueModel<T>) -> PopResult<T> {
    match m.state {
        DataQueueState::Stopped => PopResult::Stopped,
        DataQueueState::Paused => PopResult::Pending,
        DataQueueState::Started => if m.items.len() == 0 {
            PopResult::Pending
        } else {
            PopResult::Item(m.items[0])
        },
    }
}

pub open spec fn after_pop<T>(m: DataQueueModel<T>) -> DataQueueModel<T> {
    match popped(m) {
        PopResult::Item(_) => DataQueueModel { items: m.items.drop_first(), ..m },
        _ => m,
    }
}

/// The items that clearing forwards downstream rather than drops.
pub open spec fn clear_survivors<T>(items: Seq<Item<T>>) -> Seq<Item<T>> {
    items.filter(|x: Item<T>| survives_clear(x))
}

pub proof fn lemma_totals_drop_first<T>(items: Seq<Item<T>>)
    requires
        items.len() > 0,
    ensures
        total_count(items) == items[0].count + total_count(items.drop_first()),
        total_bytes(items) == items[0].bytes + total_bytes(items.drop_first()),
    decreases items.len(),
{
    let rest = items.drop_first();
    if items.len() > 1 {
        lemma_totals_drop_first(items.drop_last());
        assert(items.drop_last().drop_first() == rest.drop_last());
        assert(rest.last() == items.last());
        assert(items.drop_last()[0] == items[0]);
        assert(total_count(rest) == total_count(rest.drop_last()) + rest.last().count);
        assert(total_bytes(rest) == total_bytes(rest.drop_last()) + rest.last().bytes);
        assert(total_count(items) == total_count(items.drop_last()) + items.last().count);
        assert(total_bytes(items) == total_bytes(items.drop_last()) + items.last().bytes);
    } else {
        assert(rest.len() == 0);
        assert(items.drop_last().len() == 0);
        assert(items.last() == items[0]);
        assert(total_count(rest) == 0);
        assert(total_bytes(rest) == 0);
        assert(total_count(items.drop_last()) == 0);
        assert(total_bytes(items.drop_last()) == 0);
    }
}

pub proof fn lemma_totals_nonneg<T>(items: Seq<Item<T>>)
    ensures
        total_count(items) >= 0,
        total_bytes(items) >= 0,
    decreases items.len(),
{
    if items.len() > 0 {
        lemma_totals_nonneg(items.drop_last());
    }
}

pub struct DataQueue<T> {
    state: DataQueueState,
    queue: VecDeque<Item<T>>,
    cur_size_buffers: u64,
    cur_size_bytes: u64,
    limits: Limits,
}

impl<T> View for DataQueue<T> {
    type V = DataQueueModel<T>;

    closed spec fn view(&self) -> DataQueueModel<T> {
        DataQueueModel { state: self.state, items: self.queue@, limits: self.limits }
    }
}

impl<T> DataQueue<T> {
    /// The running totals match the items held.
    pub closed spec fn wf(&self) -> bool {
        &&& self.cur_size_buffers == total_count(self.queue@)
        &&& self.cur_size_bytes == total_bytes(self.queue@)
    }

    /// An empty, stopped queue with the given limits.
    pub fn new(limits: Limits) -> (r: DataQueue<T>)
        ensures
            r.wf(),
            r@ == (DataQueueModel::<T> {
                state: DataQueueState::Stopped,
                items: Seq::empty(),
                limits,
            }),
    {
        let r = DataQueue {
            state: DataQueueState::Stopped,
            queue: VecDeque::new(),
            cur_size_buffers: 0,
            cur_size_bytes: 0,
            limits,
        };
        assert(r@.items =~= Seq::<Item<T>>::empty());
        r
    }

    pub fn state(&self) -> (r: DataQueueState)
        ensures
            r == self@.state,
    {
        self.state
    }

    pub fn len(&self) -> (r: usize)
        ensures
            r == self@.items.len(),
    {
        self.queue.len()
    }

    /// Buffers and bytes currently held.
    pub fn level(&self) -> (r: (u64, u64))
        requires
            self.wf(),
        ensures
            r.0 == total_count(self@.items),
            r.1 == total_bytes(self@.items),
    {
        (self.cur_size_buffers, self.cur_size_bytes)
    }

    pub fn start(&mut self)
        requires
            old(self).wf(),
        ensures
            final(self).wf(),
            final(self)@ == (DataQueueModel { state: DataQueueState::Started, ..old(self)@ }),
    {
        self.state = DataQueueState::Started;
    }

    pub fn pause(&mut self)
        requires
            old(self).wf(),
        ensures
            final(self).wf(),
            final(self)@ == (DataQueueModel { state: DataQueueState::Paused, ..old(self)@ }),
    {
        self.state = DataQueueState::Paused;
    }

    pub fn stop(&mut self)
        requires
            old(self).wf(),
        ensures
            final(self).wf(),
            final(self)@ == (DataQueueModel { state: DataQueueState::Stopped, ..old(self)@ }),
    {
        self.state = DataQueueState::Stopped;
    }

    fn first_timestamp(&self) -> (r: Option<u64>)
        ensures
            r == first_start(self@.items),
    {
        let n = self.queue.len();
        let mut ts: Option<u64> = None;
        let mut i: usize = 0;
        while i < n
            invariant
                n == self@.items.len(),
                i <= n,
                ts == first_start(self@.items.take(i as int)),
            decreases n - i,
        {
            assert(self@.items.take(i + 1).drop_last() == self@.items.take(i as int));
            if ts.is_none() {
                ts = self.queue[i].start;
            }
            i = i + 1;
        }
        assert(self@.items.take(n as int) == self@.items);
        ts
    }

    /// Takes `item` at the back if the queue admits it, else hands it back.
    pub fn push(&mut self, item: Item<T>) -> (r: Result<(), Item<T>>)
        requires
            old(self).wf(),
        ensures
            final(self).wf(),
            final(self)@ == after_push(old(self)@, item),
            admits(old(self)@.items, old(self)@.limits, item) <==> r is Ok,
            r matches Err(back) ==> back == item,
    {
        proof {
            lemma_totals_nonneg(self@.items);
        }
        let ghost items = self@.items;
        if self.queue.len() > 0 {
            let (count, bytes) = item.size();
            if count as u64 > u64::MAX - self.cur_size_buffers || bytes > u64::MAX
                - self.cur_size_bytes {
                return Err(item);
            }
            if let Some(max) = self.limits.max_buffers {
                if self.cur_size_buffers >= max as u64 || self.cur_size_buffers + count as u64
                    > max as u64 {
                    return Err(item);
                }
            }
            if let Some(max) = self.limits.max_bytes {
                if self.cur_size_bytes >= max as u64 || self.cur_size_bytes + bytes > max as u64 {
                    return Err(item);
                }
            }
            // The span is measured on raw timestamps, not on running time.
            let ts = self.first_timestamp();
            if let (Some(max), Some(ts), Some(ts_end)) = (self.limits.max_time, ts, item.end) {
                let level = if ts > ts_end {
                    ts - ts_end
                } else {
                    ts_end - ts
                };
                if level > max {
                    return Err(item);
                }
            }
        }
        proof {
            assert(items.push(item).drop_last() == items);
        }
        self.cur_size_buffers = self.cur_size_buffers + item.count as u64;
        self.cur_size_bytes = self.cur_size_bytes + item.bytes;
        self.queue.push_back(item);
        Ok(())
    }

    /// Removes and returns the oldest item while the queue runs; waits while
    /// it is paused or empty; reports a stopped queue.
    pub fn pop(&mut self) -> (r: PopResult<T>)
        requires
            old(self).wf(),
        ensures
            final(self).wf(),
            r == popped(old(self)@),
            final(self)@ == after_pop(old(self)@),
    {
        match self.state {
            DataQueueState::Stopped => PopResult::Stopped,
            DataQueueState::Paused => PopResult::Pending,
            DataQueueState::Started => {
                let ghost items = self@.items;
                match self.queue.pop_front() {
                    None => PopResult::Pending,
                    Some(item) => {
                        proof {
                            lemma_totals_drop_first(items);
                            lemma_totals_nonneg(items.drop_first());
                        }
                        self.cur_size_buffers = self.cur_size_buffers - item.count as u64;
                        self.cur_size_bytes = self.cur_size_bytes - item.bytes;
                        PopResult::Item(item)
                    },
                }
            },
        }
    }

    /// Empties the queue. Returns, in order, the sticky events other than
    /// segment and end-of-stream, for the caller to hand downstream; all
    /// other items are dropped.
    pub fn clear(&mut self) -> (r: Vec<Item<T>>)
        requires
            old(self).wf(),
        ensures
            final(self).wf(),
            final(self)@ == (DataQueueModel { items: Seq::empty(), ..old(self)@ }),
            r@ == clear_survivors(old(self)@.items),
    {
        let ghost items = self@.items;
        let mut kept: Vec<Item<T>> = Vec::new();
        let ghost mut i: int = 0;
        while self.queue.len() > 0
            invariant
                0 <= i <= items.len(),
                self.queue@ == items.skip(i),
                self.state == old(self).state,
                self.limits == old(self).limits,
                kept@ == clear_survivors(items.take(i)),
            decreases self.queue@.len(),
        {
            let item = self.queue.pop_front().unwrap();
            proof {
                assert(items.skip(i)[0] == items[i]);
                assert(items.take(i + 1).drop_last() == items.take(i));
                assert(items.take(i + 1).last() == items[i]);
                assert(items.skip(i).drop_first() == items.skip(i + 1));
                reveal(Seq::filter);
            }
            if item.survives_clear() {
                kept.push(item);
            }
            proof {
                i = i + 1;
            }
        }
        assert(items.take(i) == items);
        self.cur_size_buffers = 0;
        self.cur_size_bytes = 0;
        assert(self.queue@ =~= Seq::<Item<T>>::empty());
        kept
    }
}

} // verus!
