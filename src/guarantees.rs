//! What holds of the queue across calls: delivery order, the buffer limit,
//! what a stop releases, what a clear keeps, and that a started queue always
//! makes progress.
use vstd::prelude::*;

use crate::data_queue::{
    admits,
    after_pop,
    after_push,
    clear_survivors,
    popped,
    total_count,
    DataQueueModel,
    DataQueueState,
    PopResult,
};
use crate::item::{survives_clear, Item};
use crate::queue::{
    drain_spec,
    enqueue_spec,
    flush_stop_spec,
    in_flight,
    move_pending,
    prepared_dq,
    start_spec,
    stop_spec,
    take_spec,
    until_full,
    unprepared,
    DrainStep,
    QueueModel,
};
use crate::settings::Settings;

verus! {

/// One call on the engine by the producer, the overflow drain or the drain
/// task.
pub ghost enum Step<T> {
    /// `enqueue_item` of this item.
    Submit(Item<T>),
    /// One cycle of `drain_pending`.
    Drain,
    /// `next_item`; an item it hands out is forwarded downstream.
    Take,
}

/// The engine after one step, and what that step delivered downstream.
pub open spec fn step<T>(m: QueueModel<T>, s: Step<T>) -> (QueueModel<T>, Seq<Item<T>>) {
    match s {
        Step::Submit(x) => (enqueue_spec(m, x).0, Seq::empty()),
        Step::Drain => (drain_spec(m).0, Seq::empty()),
        Step::Take => {
            let (m1, r) = take_spec(m);
            (
                m1,
                match r {
                    PopResult::Item(x) => seq![x],
                    _ => Seq::empty(),
                },
            )
        },
    }
}

/// The engine after a run of steps, and everything delivered, in order.
pub open spec fn run<T>(m: QueueModel<T>, steps: Seq<Step<T>>) -> (QueueModel<T>, Seq<Item<T>>)
    decreases steps.len(),
{
    if steps.len() == 0 {
        (m, Seq::empty())
    } else {
        let (m1, out1) = step(m, steps[0]);
        let (m2, out2) = run(m1, steps.drop_first());
        (m2, out1 + out2)
    }
}

/// The items that a run of steps submits, in order.
pub open spec fn submitted<T>(steps: Seq<Step<T>>) -> Seq<Item<T>>
    decreases steps.len(),
{
    if steps.len() == 0 {
        Seq::empty()
    } else {
        let rest = submitted(steps.drop_first());
        match steps[0] {
            Step::Submit(x) => seq![x] + rest,
            _ => rest,
        }
    }
}

/// Moving staged items into the bounded queue keeps their order.
pub proof fn lemma_move_pending_order<T>(d: DataQueueModel<T>, p: Seq<Item<T>>)
    ensures
        move_pending(d, p).0.items + move_pending(d, p).1 == d.items + p,
        move_pending(d, p).0.limits == d.limits,
        move_pending(d, p).0.state == d.state,
        move_pending(d, p).1.len() <= p.len(),
        p.len() > 0 && admits(d.items, d.limits, p[0]) ==> move_pending(d, p).1.len() < p.len(),
    decreases p.len(),
{
    if p.len() > 0 && admits(d.items, d.limits, p[0]) {
        let d1 = after_push(d, p[0]);
        lemma_move_pending_order(d1, p.drop_first());
        assert(d1.items + p.drop_first() =~= d.items + p);
    }
}

/// Submitting an item puts it behind everything already on its way.
pub proof fn lemma_submit_order<T>(m: QueueModel<T>, item: Item<T>)
    requires
        m.dq is Some,
    ensures
        in_flight(enqueue_spec(m, item).0) == in_flight(m).push(item),
        enqueue_spec(m, item).0.dq is Some,
        enqueue_spec(m, item).0.dq.unwrap().state == m.dq.unwrap().state,
        enqueue_spec(m, item).0.dq.unwrap().limits == m.dq.unwrap().limits,
{
    let d = m.dq.unwrap();
    let m1 = enqueue_spec(m, item).0;
    match m.pending {
        None => {
            assert(in_flight(m1) =~= in_flight(m).push(item));
        },
        Some(p) => {
            if p.scheduled {
                assert(in_flight(m1) =~= in_flight(m).push(item));
            } else {
                lemma_move_pending_order(d, p.items);
                assert(in_flight(m1) =~= in_flight(m).push(item));
            }
        },
    }
}

/// A cycle of the overflow drain keeps the order of what is on its way.
pub proof fn lemma_drain_order<T>(m: QueueModel<T>)
    requires
        m.dq is Some,
    ensures
        in_flight(drain_spec(m).0) == in_flight(m),
        drain_spec(m).0.dq is Some,
        drain_spec(m).0.dq.unwrap().state == m.dq.unwrap().state,
        drain_spec(m).0.dq.unwrap().limits == m.dq.unwrap().limits,
{
    if let Some(p) = m.pending {
        lemma_move_pending_order(m.dq.unwrap(), p.items);
        assert(in_flight(drain_spec(m).0) =~= in_flight(m));
    }
}

/// The drain task receives the oldest item on its way.
pub proof fn lemma_take_order<T>(m: QueueModel<T>)
    requires
        m.dq is Some,
    ensures
        take_spec(m).1 matches PopResult::Item(x) ==> in_flight(m).len() > 0 && x
            == in_flight(m)[0] && in_flight(take_spec(m).0) == in_flight(m).drop_first(),
        !(take_spec(m).1 is Item) ==> in_flight(take_spec(m).0) == in_flight(m),
        take_spec(m).0.dq is Some,
        take_spec(m).0.dq.unwrap().state == m.dq.unwrap().state,
        take_spec(m).0.dq.unwrap().limits == m.dq.unwrap().limits,
{
    let m1 = take_spec(m).0;
    if take_spec(m).1 is Item {
        assert(in_flight(m1) =~= in_flight(m).drop_first());
    } else {
        assert(in_flight(m1) =~= in_flight(m));
    }
}

/// Delivery order: over any run of submissions, overflow drains and drain
/// task steps on a prepared queue, what is delivered, followed by what is
/// still on its way, is what was on its way before followed by what was
/// submitted. So items reach downstream in the order they were admitted,
/// whether they went straight into the bounded queue or through the
/// overflow stage.
pub proof fn lemma_delivery_order<T>(m: QueueModel<T>, steps: Seq<Step<T>>)
    requires
        m.dq is Some,
    ensures
        run(m, steps).1 + in_flight(run(m, steps).0) == in_flight(m) + submitted(steps),
        run(m, steps).0.dq is Some,
        run(m, steps).0.dq.unwrap().state == m.dq.unwrap().state,
    decreases steps.len(),
{
    if steps.len() > 0 {
        let (m1, out1) = step(m, steps[0]);
        match steps[0] {
            Step::Submit(x) => lemma_submit_order(m, x),
            Step::Drain => lemma_drain_order(m),
            Step::Take => lemma_take_order(m),
        }
        lemma_delivery_order(m1, steps.drop_first());
        let (m2, out2) = run(m1, steps.drop_first());
        let rest = submitted(steps.drop_first());
        assert(out2 + in_flight(m2) == in_flight(m1) + rest);
        match steps[0] {
            Step::Submit(x) => {
                assert(submitted(steps) == seq![x] + rest);
                assert(in_flight(m1) + rest =~= in_flight(m) + (seq![x] + rest));
                assert(out1 =~= Seq::<Item<T>>::empty());
                assert(out1 + out2 + in_flight(m2) =~= in_flight(m) + submitted(steps));
            },
            Step::Drain => {
                assert(submitted(steps) == rest);
                assert(out1 =~= Seq::<Item<T>>::empty());
                assert(out1 + out2 + in_flight(m2) =~= in_flight(m) + submitted(steps));
            },
            Step::Take => {
                assert(submitted(steps) == rest);
                if take_spec(m).1 is Item {
                    assert(in_flight(m) =~= seq![in_flight(m)[0]] + in_flight(m).drop_first());
                    assert(out1 == seq![in_flight(m)[0]]);
                    assert(in_flight(m1) == in_flight(m).drop_first());
                    assert(out1 + out2 + in_flight(m2) =~= out1 + (out2 + in_flight(m2)));
                    assert(out1 + (in_flight(m1) + rest) =~= (out1 + in_flight(m1)) + rest);
                    assert(out1 + out2 + in_flight(m2) =~= in_flight(m) + submitted(steps));
                } else {
                    assert(out1 =~= Seq::<Item<T>>::empty());
                    assert(out1 + out2 + in_flight(m2) =~= in_flight(m) + submitted(steps));
                }
            },
        }
    }
}

/// Buffer limit: with a limit of `n` buffers, a push never takes a queue that
/// holds at most `n` buffers beyond `n` (for items of at most `n` buffers),
/// and a queue that holds `n` buffers is full: it turns away any further
/// item, a control event too. A pop never adds to what is held.
pub proof fn lemma_buffer_limit<T>(m: DataQueueModel<T>, item: Item<T>, n: u32)
    requires
        m.limits.max_buffers == Some(n),
        n > 0,
        total_count(m.items) <= n,
        item.count <= n,
    ensures
        total_count(after_push(m, item).items) <= n,
        total_count(m.items) == n ==> !admits(m.items, m.limits, item)
            && after_push(m, item) == m,
        total_count(after_pop(m).items) <= total_count(m.items),
{
    assert(m.items.push(item).drop_last() == m.items);
    if m.items.len() == 0 {
        assert(total_count(m.items) == 0);
    }
    if popped(m) is Item {
        crate::data_queue::lemma_totals_drop_first(m.items);
    }
}

/// Every item of `items` stands for at most `n` buffers.
pub open spec fn counts_within<T>(items: Seq<Item<T>>, n: u32) -> bool {
    forall|i: int| 0 <= i < items.len() ==> (#[trigger] items[i]).count <= n
}

/// Moving staged items keeps the bounded queue within a limit of `n`
/// buffers.
pub proof fn lemma_move_pending_bound<T>(d: DataQueueModel<T>, p: Seq<Item<T>>, n: u32)
    requires
        d.limits.max_buffers == Some(n),
        n > 0,
        total_count(d.items) <= n,
        counts_within(p, n),
    ensures
        total_count(move_pending(d, p).0.items) <= n,
    decreases p.len(),
{
    if p.len() > 0 && admits(d.items, d.limits, p[0]) {
        lemma_buffer_limit(d, p[0], n);
        let d1 = after_push(d, p[0]);
        assert(counts_within(p.drop_first(), n)) by {
            assert forall|i: int| 0 <= i < p.drop_first().len() implies (
            #[trigger] p.drop_first()[i]).count <= n by {
                assert(p.drop_first()[i] == p[i + 1]);
            }
        }
        lemma_move_pending_bound(d1, p.drop_first(), n);
    }
}

/// Buffer limit over a run: with a limit of `n` buffers and items of at most
/// `n` buffers each, the bounded queue never holds more than `n` buffers,
/// whatever the order of submissions, overflow drains and drain task steps.
pub proof fn lemma_buffer_bound_run<T>(m: QueueModel<T>, steps: Seq<Step<T>>, n: u32)
    requires
        m.dq matches Some(d) && d.limits.max_buffers == Some(n) && total_count(d.items) <= n,
        n > 0,
        counts_within(in_flight(m), n),
        counts_within(submitted(steps), n),
    ensures
        total_count(run(m, steps).0.dq.unwrap().items) <= n,
    decreases steps.len(),
{
    if steps.len() > 0 {
        let d = m.dq.unwrap();
        let (m1, out1) = step(m, steps[0]);
        let rest = submitted(steps.drop_first());
        let pend = match m.pending {
            Some(p) => p.items,
            None => Seq::empty(),
        };
        assert(counts_within(pend, n)) by {
            assert forall|i: int| 0 <= i < pend.len() implies (#[trigger] pend[i]).count <= n by {
                assert(in_flight(m)[d.items.len() + i] == pend[i]);
            }
        }
        match steps[0] {
            Step::Submit(x) => {
                assert(submitted(steps) == seq![x] + rest);
                assert(submitted(steps)[0] == x);
                assert(counts_within(rest, n)) by {
                    assert forall|i: int| 0 <= i < rest.len() implies (#[trigger] rest[i]).count
                        <= n by {
                        assert(submitted(steps)[i + 1] == rest[i]);
                    }
                }
                lemma_submit_order(m, x);
                lemma_buffer_limit(d, x, n);
                if let Some(p) = m.pending {
                    if !p.scheduled {
                        lemma_move_pending_bound(d, p.items, n);
                        lemma_move_pending_order(d, p.items);
                        let d1 = move_pending(d, p.items).0;
                        lemma_buffer_limit(d1, x, n);
                    }
                }
                assert(counts_within(in_flight(m1), n)) by {
                    assert forall|i: int| 0 <= i < in_flight(m1).len() implies (
                    #[trigger] in_flight(m1)[i]).count <= n by {
                        if i < in_flight(m).len() {
                            assert(in_flight(m1)[i] == in_flight(m)[i]);
                        }
                    }
                }
            },
            Step::Drain => {
                assert(submitted(steps) == rest);
                lemma_drain_order(m);
                if let Some(p) = m.pending {
                    lemma_move_pending_bound(d, p.items, n);
                }
            },
            Step::Take => {
                assert(submitted(steps) == rest);
                lemma_take_order(m);
                if popped(d) is Item {
                    crate::data_queue::lemma_totals_drop_first(d.items);
                }
                assert(counts_within(in_flight(m1), n)) by {
                    if take_spec(m).1 is Item {
                        assert forall|i: int| 0 <= i < in_flight(m1).len() implies (
                        #[trigger] in_flight(m1)[i]).count <= n by {
                            assert(in_flight(m1)[i] == in_flight(m)[i + 1]);
                        }
                    }
                }
            },
        }
        lemma_buffer_bound_run(m1, steps.drop_first(), n);
    }
}

/// Stop releases everyone: after a stop the overflow stage and its
/// notification are gone, which wakes a producer blocked on it; that
/// producer's next overflow cycle gives up at once and it returns
/// "flushing"; the drain task's next request ends it.
pub proof fn lemma_stop_releases<T>(m: QueueModel<T>)
    ensures
        stop_spec(m).0.pending is None,
        stop_spec(m).0.last_res == Err::<(), crate::queue::FlowError>(
            crate::queue::FlowError::Flushing,
        ),
        drain_spec(stop_spec(m).0).1 == DrainStep::Gone,
        drain_spec(stop_spec(m).0).0 == stop_spec(m).0,
        take_spec(stop_spec(m).0).1 is Stopped,
{
}

/// Clearing keeps exactly the sticky events other than segment and
/// end-of-stream, in their order: each of them is among those handed
/// downstream, and everything handed downstream is such an event that was
/// queued.
pub proof fn lemma_clear_keeps_sticky<T>(items: Seq<Item<T>>)
    ensures
        forall|i: int|
            0 <= i < items.len() && survives_clear(#[trigger] items[i]) ==> clear_survivors(
                items,
            ).contains(items[i]),
        forall|j: int|
            0 <= j < clear_survivors(items).len() ==> survives_clear(
                #[trigger] clear_survivors(items)[j],
            ) && items.contains(clear_survivors(items)[j]),
{
    broadcast use vstd::seq_lib::group_filter_ensures;

    let f = |x: Item<T>| survives_clear(x);
    assert forall|i: int| 0 <= i < items.len() && survives_clear(#[trigger] items[i]) implies clear_survivors(
        items,
    ).contains(items[i]) by {
        items.lemma_filter_contains(f, i);
    }
    assert forall|j: int| 0 <= j < clear_survivors(items).len() implies survives_clear(
        #[trigger] clear_survivors(items)[j],
    ) && items.contains(clear_survivors(items)[j]) by {
        items.lemma_filter_pred(f, j);
        assert(items.filter(f).contains(items.filter(f)[j]));
        items.lemma_filter_contains_rev(f, items.filter(f)[j]);
    }
}

/// The engine right after prepare and start.
pub open spec fn started<T>(settings: Settings) -> QueueModel<T> {
    start_spec(QueueModel { dq: Some(prepared_dq::<T>(settings)), ..unprepared::<T>() }).0
}

/// Round trip: after prepare and start, any run of steps that leaves nothing
/// on its way has delivered exactly the submitted items, each once and in
/// order; a stop then hands nothing more downstream, and after flush-stop
/// the drain task finds nothing to deliver again.
pub proof fn lemma_round_trip<T>(settings: Settings, steps: Seq<Step<T>>)
    requires
        in_flight(run(started::<T>(settings), steps).0).len() == 0,
    ensures
        run(started::<T>(settings), steps).1 == submitted(steps),
        stop_spec(run(started::<T>(settings), steps).0).1.len() == 0,
        take_spec(flush_stop_spec(stop_spec(run(started::<T>(settings), steps).0).0).0).1 is Pending,
{
    let m0 = started::<T>(settings);
    assert(in_flight(m0) =~= Seq::<Item<T>>::empty());
    lemma_delivery_order(m0, steps);
    let m1 = run(m0, steps).0;
    assert(run(m0, steps).1 =~= run(m0, steps).1 + in_flight(m1));
    assert(in_flight(m0) + submitted(steps) =~= submitted(steps));
    let d1 = m1.dq.unwrap();
    assert(d1.items.len() == 0);
    reveal(Seq::filter);
    assert(clear_survivors(d1.items).len() == 0);
}

/// Progress: on a started queue with items on their way, the drain task gets
/// one at its next request, or after one cycle of the overflow drain (an
/// empty bounded queue takes any item).
pub proof fn lemma_drain_progress<T>(m: QueueModel<T>)
    requires
        m.dq matches Some(d) && d.state == DataQueueState::Started,
        in_flight(m).len() > 0,
    ensures
        take_spec(m).1 is Item || take_spec(drain_spec(m).0).1 is Item,
{
    let d = m.dq.unwrap();
    if d.items.len() == 0 {
        let p = m.pending.unwrap();
        lemma_move_pending_order(d, p.items);
        lemma_drain_order(m);
        let d1 = move_pending(d, p.items).0;
        assert((d1.items + move_pending(d, p.items).1).len() == d.items.len() + p.items.len());
        assert(d1.items.len() > 0);
    }
}

} // verus!
