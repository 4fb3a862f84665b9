//! The queue engine: admission of items, the overflow stage used while the
//! bounded queue is full, the steps of the drain task, and the lifecycle
//! transitions (prepare, start, stop, flush-stop, unprepare).
//!
//! The engine decides; its caller acts. The caller holds the engine behind
//! one lock, runs the drain task and the overflow drain on an execution
//! context, forwards items downstream and hands back the outcomes.
use std::collections::VecDeque;
use vstd::prelude::*;

use crate::data_queue::{
    admits,
    after_pop,
    after_push,
    clear_survivors,
    popped,
    DataQueue,
    DataQueueModel,
    DataQueueState,
    PopResult,
};
use crate::item::{is_deferrable, EventKind, Item};
use crate::settings::{limits_of, Settings};

verus! {

/// Why an item could not be forwarded downstream.
#[derive(Clone, Copy, Debug, PartialEq, Eq, Structural)]
pub enum FlowError {
    NotLinked,
    Flushing,
    Eos,
    NotNegotiated,
    Error,
    NotSupported,
}

/// What the caller of `enqueue_item` does next.
#[derive(Clone, Copy, Debug, PartialEq, Eq)]
pub enum Admission {
    /// Return this result upstream now.
    Done(Result<(), FlowError>),
    /// An overflow drain was scheduled: run `drain_pending` until it no
    /// longer asks to wait, then return `last_result`.
    Wait,
}

/// What one cycle of the overflow drain found.
#[derive(Clone, Copy, Debug, PartialEq, Eq, Structural)]
pub enum DrainStep {
    /// The queue was torn down or flushed: give up.
    Gone,
    /// Every staged item entered the bounded queue.
    Finished,
    /// An item still does not fit: wait on the notification handed in.
    Wait,
}

/// What the drain task does after forwarding an item.
#[derive(Clone, Copy, Debug, PartialEq, Eq, Structural)]
pub enum TaskAction {
    /// Go on with the next item.
    Continue,
    /// End the task.
    Stop,
    /// Send an end-of-stream event downstream, then end the task.
    SendEos,
    /// Post a fatal stream error for this outcome, then end the task.
    Fail(FlowError),
}

/// The execution context could not be acquired.
#[derive(Clone, Copy, Debug, PartialEq, Eq, Structural)]
pub enum PrepareError {
    OpenRead,
}

/// What a flush event did to the engine.
#[derive(Debug)]
pub enum FlushAction<T> {
    /// The event is no flush event; nothing changed.
    Nothing,
    /// Flush-start stopped the queue; these sticky events go downstream.
    Stopped(Vec<Item<T>>),
    /// Flush-stop ran; `true` asks the caller to respawn the drain task.
    Restarted(bool),
}

/// A pad's scheduling mode.
#[derive(Clone, Copy, Debug, PartialEq, Eq, Structural)]
pub enum PadMode {
    Inactive,
    Push,
    Pull,
}

/// Scheduling modes that the queue offers downstream: those upstream offers,
/// but pull.
pub open spec fn offered_modes(modes: Seq<PadMode>) -> Seq<PadMode> {
    modes.filter(|m: PadMode| m != PadMode::Pull)
}

/// The scheduling modes of upstream's answer to a scheduling query, but pull:
/// downstream cannot pull through the queue.
pub fn scheduling_modes_without_pull(modes: &Vec<PadMode>) -> (r: Vec<PadMode>)
    ensures
        r@ == offered_modes(modes@),
{
    let mut out: Vec<PadMode> = Vec::new();
    let mut i: usize = 0;
    while i < modes.len()
        invariant
            i <= modes@.len(),
            out@ == offered_modes(modes@.take(i as int)),
        decreases modes@.len() - i,
    {
        proof {
            assert(modes@.take(i + 1).drop_last() == modes@.take(i as int));
            assert(modes@.take(i + 1).last() == modes@[i as int]);
            reveal(Seq::filter);
        }
        if modes[i] != PadMode::Pull {
            out.push(modes[i]);
        }
        i = i + 1;
    }
    assert(modes@.take(modes@.len() as int) == modes@);
    out
}

/// The abstract content of the overflow stage.
pub ghost struct PendingModel<T> {
    /// An overflow drain is scheduled.
    pub scheduled: bool,
    /// A "space available" notification is registered.
    pub waiting: bool,
    pub items: Seq<Item<T>>,
}

/// The abstract state of the engine.
pub ghost struct QueueModel<T> {
    /// The bounded queue, while prepared.
    pub dq: Option<DataQueueModel<T>>,
    /// The overflow stage, while in use.
    pub pending: Option<PendingModel<T>>,
    /// The last forwarding result.
    pub last_res: Result<(), FlowError>,
}

/// Moves staged items, front first, into the bounded queue until one does
/// not fit. Gives the new queue and what stays staged.
pub open spec fn move_pending<T>(d: DataQueueModel<T>, p: Seq<Item<T>>) -> (DataQueueModel<T>, Seq<Item<T>>)
    decreases p.len(),
{
    if p.len() == 0 {
        (d, p)
    } else if admits(d.items, d.limits, p[0]) {
        move_pending(after_push(d, p[0]), p.drop_first())
    } else {
        (d, p)
    }
}

/// The items on their way downstream, oldest first: the bounded queue, then
/// the overflow stage.
pub open spec fn in_flight<T>(m: QueueModel<T>) -> Seq<Item<T>> {
    let a = match m.dq {
        Some(d) => d.items,
        None => Seq::empty(),
    };
    let b = match m.pending {
        Some(p) => p.items,
        None => Seq::empty(),
    };
    a + b
}

pub open spec fn empty_pending<T>() -> PendingModel<T> {
    PendingModel { scheduled: false, waiting: false, items: Seq::empty() }
}

/// Tries the staged items and then `item` on the bounded queue. Gives the new
/// queue, the new overflow stage, and whether `item` went in.
pub open spec fn until_full<T>(d: DataQueueModel<T>, pending: Option<PendingModel<T>>, item: Item<T>) -> (DataQueueModel<T>, Option<PendingModel<T>>, bool) {
    match pending {
        None => (after_push(d, item), None, admits(d.items, d.limits, item)),
        Some(p) => if p.scheduled {
            (d, pending, false)
        } else {
            let (d1, rest) = move_pending(d, p.items);
            let left = PendingModel { items: rest, ..p };
            if rest.len() == 0 {
                (after_push(d1, item), Some(left), admits(d1.items, d1.limits, item))
            } else {
                (d1, Some(left), false)
            }
        },
    }
}

/// The engine after `enqueue_item`, and what that call returns.
pub open spec fn enqueue_spec<T>(m: QueueModel<T>, item: Item<T>) -> (QueueModel<T>, Admission) {
    match m.dq {
        None => (m, Admission::Done(Err(FlowError::Error))),
        Some(d) => {
            let (d2, pend2, direct) = until_full(d, m.pending, item);
            if direct {
                (QueueModel { dq: Some(d2), pending: pend2, ..m }, Admission::Done(m.last_res))
            } else {
                let stage = match pend2 {
                    Some(p) => p,
                    None => empty_pending(),
                };
                if stage.scheduled {
                    (
                        QueueModel {
                            dq: Some(d2),
                            pending: Some(PendingModel { items: stage.items.push(item), ..stage }),
                            ..m
                        },
                        Admission::Done(m.last_res),
                    )
                } else if is_deferrable(item) {
                    (
                        QueueModel {
                            dq: Some(d2),
                            pending: Some(PendingModel { items: stage.items.push(item), ..stage }),
                            ..m
                        },
                        Admission::Done(m.last_res),
                    )
                } else {
                    (
                        QueueModel {
                            dq: Some(d2),
                            pending: Some(
                                PendingModel { items: stage.items.push(item), scheduled: true, ..stage },
                            ),
                            ..m
                        },
                        Admission::Wait,
                    )
                }
            }
        },
    }
}

/// The engine after one cycle of the overflow drain, and what it found.
pub open spec fn drain_spec<T>(m: QueueModel<T>) -> (QueueModel<T>, DrainStep) {
    match (m.dq, m.pending) {
        (Some(d), Some(p)) => {
            let (d1, rest) = move_pending(d, p.items);
            if rest.len() == 0 {
                (QueueModel { dq: Some(d1), pending: None, ..m }, DrainStep::Finished)
            } else {
                (
                    QueueModel {
                        dq: Some(d1),
                        pending: Some(PendingModel { items: rest, waiting: true, ..p }),
                        ..m
                    },
                    DrainStep::Wait,
                )
            }
        },
        _ => (m, DrainStep::Gone),
    }
}

/// The engine after the drain task asks for its next item, and the answer.
/// Handing out an item wakes a producer waiting for space.
pub open spec fn take_spec<T>(m: QueueModel<T>) -> (QueueModel<T>, PopResult<T>) {
    match m.dq {
        None => (m, PopResult::Stopped),
        Some(d) => {
            let r = popped(d);
            let pending = match m.pending {
                Some(p) => if r is Item {
                    Some(PendingModel { waiting: false, ..p })
                } else {
                    m.pending
                },
                None => None,
            };
            (QueueModel { dq: Some(after_pop(d)), pending, ..m }, r)
        },
    }
}

/// What the drain task does after a forwarding outcome.
pub open spec fn action_of(res: Result<(), FlowError>) -> TaskAction {
    match res {
        Ok(()) => TaskAction::Continue,
        Err(FlowError::Flushing) => TaskAction::Stop,
        Err(FlowError::Eos) => TaskAction::SendEos,
        Err(e) => TaskAction::Fail(e),
    }
}

/// The engine after a stop, and the sticky events to hand downstream.
pub open spec fn stop_spec<T>(m: QueueModel<T>) -> (QueueModel<T>, Seq<Item<T>>) {
    let (dq, out) = match m.dq {
        Some(d) => (
            Some(DataQueueModel { state: DataQueueState::Stopped, items: Seq::empty(), ..d }),
            clear_survivors(d.items),
        ),
        None => (None, Seq::empty()),
    };
    (QueueModel { dq, pending: None, last_res: Err(FlowError::Flushing) }, out)
}

/// The engine after a start, and whether the drain task is to be spawned.
pub open spec fn start_spec<T>(m: QueueModel<T>) -> (QueueModel<T>, bool) {
    match m.dq {
        Some(d) => if d.state == DataQueueState::Started {
            (m, false)
        } else {
            (
                QueueModel {
                    dq: Some(DataQueueModel { state: DataQueueState::Started, ..d }),
                    last_res: Ok(()),
                    ..m
                },
                true,
            )
        },
        None => (m, false),
    }
}

/// The engine after a flush-stop, and whether the drain task is to be
/// spawned again. Like a start, it recovers from the flush: the last result
/// is reset to success.
pub open spec fn flush_stop_spec<T>(m: QueueModel<T>) -> (QueueModel<T>, bool) {
    match m.dq {
        Some(d) => if d.state == DataQueueState::Started {
            (m, false)
        } else {
            (
                QueueModel {
                    dq: Some(DataQueueModel { state: DataQueueState::Started, ..d }),
                    last_res: Ok(()),
                    ..m
                },
                true,
            )
        },
        None => (m, false),
    }
}

/// A bounded queue freshly made from the settings.
pub open spec fn prepared_dq<T>(settings: Settings) -> DataQueueModel<T> {
    DataQueueModel { state: DataQueueState::Stopped, items: Seq::empty(), limits: limits_of(settings) }
}

pub open spec fn unprepared<T>() -> QueueModel<T> {
    QueueModel { dq: None, pending: None, last_res: Ok(()) }
}

struct PendingQueue<T, W> {
    more_queue_space_sender: Option<W>,
    scheduled: bool,
    items: VecDeque<Item<T>>,
}

impl<T, W> View for PendingQueue<T, W> {
    type V = PendingModel<T>;

    closed spec fn view(&self) -> PendingModel<T> {
        PendingModel {
            scheduled: self.scheduled,
            waiting: self.more_queue_space_sender.is_some(),
            items: self.items@,
        }
    }
}

impl<T, W> PendingQueue<T, W> {
    /// Drops the registered notification, which wakes its waiter.
    fn notify_more_queue_space(&mut self)
        ensures
            final(self)@ == (PendingModel { waiting: false, ..old(self)@ }),
    {
        self.more_queue_space_sender = None;
    }
}

spec fn pending_view<T, W>(p: Option<PendingQueue<T, W>>) -> Option<PendingModel<T>> {
    match p {
        Some(p) => Some(p@),
        None => None,
    }
}

/// Moves staged items into the bounded queue until one does not fit; that
/// one goes back to the front of the stage.
fn move_pending_items<T>(dq: &mut DataQueue<T>, items: &mut VecDeque<Item<T>>)
    requires
        old(dq).wf(),
    ensures
        final(dq).wf(),
        (final(dq)@, final(items)@) == move_pending(old(dq)@, old(items)@),
{
    let ghost target = move_pending(dq@, items@);
    let mut done = false;
    while !done
        invariant
            dq.wf(),
            move_pending(dq@, items@) == target,
            done ==> (dq@, items@) == target,
        decreases items@.len() + if done {
            0int
        } else {
            1int
        },
    {
        let ghost before = items@;
        match items.pop_front() {
            None => {
                done = true;
            },
            Some(item) => {
                let ghost d = dq@;
                match dq.push(item) {
                    Ok(()) => {},
                    Err(item) => {
                        items.push_front(item);
                        assert(items@ =~= before);
                        done = true;
                    },
                }
            },
        }
    }
}

/// The engine of one queue element. `T` is the payload of an item, `W` the
/// sending half of a "space available" notification: dropping it wakes the
/// waiter.
pub struct Queue<T, W> {
    dataqueue: Option<DataQueue<T>>,
    pending_queue: Option<PendingQueue<T, W>>,
    last_res: Result<(), FlowError>,
}

impl<T, W> View for Queue<T, W> {
    type V = QueueModel<T>;

    closed spec fn view(&self) -> QueueModel<T> {
        QueueModel {
            dq: match self.dataqueue {
                Some(d) => Some(d@),
                None => None,
            },
            pending: pending_view(self.pending_queue),
            last_res: self.last_res,
        }
    }
}

/// Tries the staged items, then `item`, on the bounded queue; hands `item`
/// back where it did not go in.
fn queue_until_full<T, W>(
    dq: &mut DataQueue<T>,
    pending_queue: &mut Option<PendingQueue<T, W>>,
    item: Item<T>,
) -> (r: Result<(), Item<T>>)
    requires
        old(dq).wf(),
    ensures
        final(dq).wf(),
        (final(dq)@, pending_view(*final(pending_queue)), r is Ok) == until_full(
            old(dq)@,
            pending_view(*old(pending_queue)),
            item,
        ),
        r matches Err(back) ==> back == item,
{
    match pending_queue {
        None => dq.push(item),
        Some(pq) => {
            if pq.scheduled {
                Err(item)
            } else {
                move_pending_items(dq, &mut pq.items);
                if pq.items.len() == 0 {
                    dq.push(item)
                } else {
                    Err(item)
                }
            }
        },
    }
}

impl<T, W> Queue<T, W> {
    /// The bounded queue's running totals are kept.
    pub closed spec fn wf(&self) -> bool {
        self.dataqueue matches Some(d) ==> d.wf()
    }

    /// An unprepared engine.
    pub fn new() -> (r: Queue<T, W>)
        ensures
            r.wf(),
            r@ == (QueueModel::<T> { dq: None, pending: None, last_res: Ok(()) }),
    {
        Queue { dataqueue: None, pending_queue: None, last_res: Ok(()) }
    }

    /// The last forwarding result.
    pub fn last_result(&self) -> (r: Result<(), FlowError>)
        ensures
            r == self@.last_res,
    {
        self.last_res
    }

    /// The state of the bounded queue, while prepared.
    pub fn state(&self) -> (r: Option<DataQueueState>)
        ensures
            r == (match self@.dq {
                Some(d) => Some(d.state),
                None => None,
            }),
    {
        match &self.dataqueue {
            Some(dq) => Some(dq.state()),
            None => None,
        }
    }

    /// Admits an item from upstream. It enters the bounded queue where it
    /// fits and nothing is staged before it; otherwise it is staged. A staged
    /// data item or end-of-stream schedules the overflow drain, which the
    /// caller then runs (`Admission::Wait`); a staged control event defers it.
    pub fn enqueue_item(&mut self, item: Item<T>) -> (r: Admission)
        requires
            old(self).wf(),
        ensures
            final(self).wf(),
            (final(self)@, r) == enqueue_spec(old(self)@, item),
    {
        let last_res = self.last_res;
        match &mut self.dataqueue {
            None => Admission::Done(Err(FlowError::Error)),
            Some(dq) => {
                match queue_until_full(dq, &mut self.pending_queue, item) {
                    Ok(()) => Admission::Done(last_res),
                    Err(item) => {
                        let schedule_now = !item.is_deferrable();
                        match &mut self.pending_queue {
                            Some(pq) => {
                                if pq.scheduled {
                                    pq.items.push_back(item);
                                    return Admission::Done(last_res);
                                }
                            },
                            None => {
                                self.pending_queue = Some(
                                    PendingQueue {
                                        more_queue_space_sender: None,
                                        scheduled: false,
                                        items: VecDeque::new(),
                                    },
                                );
                            },
                        }
                        match &mut self.pending_queue {
                            Some(pq) => {
                                pq.items.push_back(item);
                                if schedule_now {
                                    pq.scheduled = true;
                                    Admission::Wait
                                } else {
                                    Admission::Done(last_res)
                                }
                            },
                            None => Admission::Done(last_res),
                        }
                    },
                }
            },
        }
    }

    /// One cycle of the overflow drain: moves staged items into the bounded
    /// queue, front first, until one does not fit. If all went in, the stage
    /// is dropped; otherwise `notify` is kept as the "space available"
    /// notification and the caller waits on its other half. Gives up where
    /// the queue was torn down or flushed.
    pub fn drain_pending(&mut self, notify: W) -> (r: DrainStep)
        requires
            old(self).wf(),
        ensures
            final(self).wf(),
            (final(self)@, r) == drain_spec(old(self)@),
    {
        match &mut self.dataqueue {
            None => DrainStep::Gone,
            Some(dq) => {
                let finished = match &mut self.pending_queue {
                    None => {
                        return DrainStep::Gone;
                    },
                    Some(pq) => {
                        move_pending_items(dq, &mut pq.items);
                        if pq.items.len() == 0 {
                            true
                        } else {
                            pq.more_queue_space_sender = Some(notify);
                            false
                        }
                    },
                };
                if finished {
                    self.pending_queue = None;
                    DrainStep::Finished
                } else {
                    DrainStep::Wait
                }
            },
        }
    }

    /// The drain task's request for its next item. A stopped or torn-down
    /// queue ends the task; handing out an item first wakes a producer
    /// waiting for space.
    pub fn next_item(&mut self) -> (r: PopResult<T>)
        requires
            old(self).wf(),
        ensures
            final(self).wf(),
            (final(self)@, r) == take_spec(old(self)@),
    {
        match &mut self.dataqueue {
            None => PopResult::Stopped,
            Some(dq) => {
                let r = dq.pop();
                if let PopResult::Item(_) = &r {
                    if let Some(pq) = &mut self.pending_queue {
                        pq.notify_more_queue_space();
                    }
                }
                r
            },
        }
    }

    /// Records the outcome of forwarding an item downstream, and says how the
    /// drain task goes on.
    pub fn forwarded(&mut self, res: Result<(), FlowError>) -> (r: TaskAction)
        requires
            old(self).wf(),
        ensures
            final(self).wf(),
            final(self)@ == (QueueModel { last_res: res, ..old(self)@ }),
            r == action_of(res),
    {
        self.last_res = res;
        match res {
            Ok(()) => TaskAction::Continue,
            Err(FlowError::Flushing) => TaskAction::Stop,
            Err(FlowError::Eos) => TaskAction::SendEos,
            Err(e) => TaskAction::Fail(e),
        }
    }

    /// Stop (flush-start): the last result becomes "flushing", the bounded
    /// queue is emptied and stopped, and the overflow stage is dropped with
    /// its notification, which wakes a blocked producer. Returns the sticky
    /// events (other than segment and end-of-stream) that were queued, to be
    /// handed downstream. The caller also stops the drain task.
    pub fn stop(&mut self) -> (r: Vec<Item<T>>)
        requires
            old(self).wf(),
        ensures
            final(self).wf(),
            (final(self)@, r@) == stop_spec(old(self)@),
    {
        self.last_res = Err(FlowError::Flushing);
        let kept = match &mut self.dataqueue {
            Some(dq) => {
                dq.pause();
                let kept = dq.clear();
                dq.stop();
                kept
            },
            None => Vec::new(),
        };
        if let Some(pq) = &mut self.pending_queue {
            pq.notify_more_queue_space();
        }
        self.pending_queue = None;
        kept
    }

    /// Start: a no-op on a running queue; else sets it running, resets the
    /// last result, and asks the caller to spawn the drain task (`true`).
    pub fn start(&mut self) -> (r: bool)
        requires
            old(self).wf(),
            old(self)@.dq is Some,
        ensures
            final(self).wf(),
            (final(self)@, r) == start_spec(old(self)@),
    {
        match &mut self.dataqueue {
            Some(dq) => {
                if dq.state() == DataQueueState::Started {
                    return false;
                }
                dq.start();
                self.last_res = Ok(());
                true
            },
            None => false,
        }
    }

    /// Flush-stop: a no-op on a running queue; else sets it running again,
    /// resets the last result (the flush is over), and asks the caller to
    /// respawn the drain task (`true`).
    pub fn flush_stop(&mut self) -> (r: bool)
        requires
            old(self).wf(),
            old(self)@.dq is Some,
        ensures
            final(self).wf(),
            (final(self)@, r) == flush_stop_spec(old(self)@),
    {
        match &mut self.dataqueue {
            Some(dq) => {
                if dq.state() == DataQueueState::Started {
                    return false;
                }
                dq.start();
                self.last_res = Ok(());
                true
            },
            None => false,
        }
    }

    /// Prepare: makes the bounded queue from the settings. `context_acquired`
    /// tells whether the caller could acquire the execution context that the
    /// settings name; if not, the transition fails with a resource error.
    pub fn prepare(&mut self, settings: &Settings, context_acquired: bool) -> (r: Result<
        (),
        PrepareError,
    >)
        requires
            old(self).wf(),
        ensures
            final(self).wf(),
            final(self)@ == (QueueModel { dq: Some(prepared_dq::<T>(*settings)), ..old(self)@ }),
            r == (if context_acquired {
                Ok(())
            } else {
                Err(PrepareError::OpenRead)
            }),
    {
        let dq = DataQueue::new(settings.limits());
        assert(dq@.items =~= Seq::<Item<T>>::empty());
        self.dataqueue = Some(dq);
        if context_acquired {
            Ok(())
        } else {
            Err(PrepareError::OpenRead)
        }
    }

    /// Flush events seen on either pad: flush-start stops the queue,
    /// flush-stop restarts a prepared one; other events change nothing. The
    /// caller forwards the event itself as before.
    pub fn handle_flush(&mut self, kind: EventKind) -> (r: FlushAction<T>)
        requires
            old(self).wf(),
        ensures
            final(self).wf(),
            kind == EventKind::FlushStart ==> (r matches FlushAction::Stopped(out) && (
            final(self)@, out@) == stop_spec(old(self)@)),
            kind == EventKind::FlushStop ==> (r matches FlushAction::Restarted(spawn) && (
            final(self)@, spawn) == flush_stop_spec(old(self)@)),
            kind != EventKind::FlushStart && kind != EventKind::FlushStop ==> r is Nothing
                && final(self)@ == old(self)@,
    {
        match kind {
            EventKind::FlushStart => FlushAction::Stopped(self.stop()),
            EventKind::FlushStop => {
                if self.dataqueue.is_some() {
                    FlushAction::Restarted(self.flush_stop())
                } else {
                    FlushAction::Restarted(false)
                }
            },
            _ => FlushAction::Nothing,
        }
    }

    /// Unprepare: drops the bounded queue and the overflow stage and resets
    /// the last result. The caller releases the execution context.
    pub fn unprepare(&mut self)
        ensures
            final(self).wf(),
            final(self)@ == unprepared::<T>(),
    {
        self.dataqueue = None;
        self.pending_queue = None;
        self.last_res = Ok(());
    }
}

} // verus!
