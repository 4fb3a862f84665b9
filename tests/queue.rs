use std::sync::mpsc::{channel, Receiver, Sender, TryRecvError};

use threadshare::{
    scheduling_modes_without_pull, Admission, BufferMeta, DataQueueState, DrainStep, EventInfo,
    EventKind, FlowError, FlushAction, Item, PadMode, PopResult, PrepareError, Queue, Settings,
    TaskAction,
};

type Q = Queue<&'static str, Sender<()>>;

fn buf(name: &'static str, size: u32) -> Item<&'static str> {
    Item::buffer(name, BufferMeta { size, ts: None, duration: None })
}

fn ev(name: &'static str, kind: EventKind, sticky: bool) -> Item<&'static str> {
    Item::event(name, EventInfo { kind, sticky })
}

fn settings(buffers: u32) -> Settings {
    Settings {
        max_size_buffers: buffers,
        max_size_bytes: 0,
        max_size_time: 0,
        context: String::new(),
        context_wait: 0,
    }
}

fn started(buffers: u32) -> Q {
    let mut q: Q = Queue::new();
    assert_eq!(q.prepare(&settings(buffers), true), Ok(()));
    assert!(q.start());
    q
}

fn take(q: &mut Q) -> Option<&'static str> {
    match q.next_item() {
        PopResult::Item(it) => Some(it.payload),
        _ => None,
    }
}

fn woken(rx: &Receiver<()>) -> bool {
    matches!(rx.try_recv(), Err(TryRecvError::Disconnected))
}

#[test]
fn overflow_keeps_admission_order() {
    let mut q = started(2);
    let (tx, rx) = channel();
    assert_eq!(q.enqueue_item(buf("A", 10)), Admission::Done(Ok(())));
    assert_eq!(q.enqueue_item(buf("B", 10)), Admission::Done(Ok(())));
    assert_eq!(q.enqueue_item(buf("C", 10)), Admission::Wait);
    assert_eq!(q.drain_pending(tx), DrainStep::Wait);
    assert!(!woken(&rx));
    assert_eq!(take(&mut q), Some("A"));
    assert!(woken(&rx));
    let (tx2, _rx2) = channel();
    assert_eq!(q.drain_pending(tx2), DrainStep::Finished);
    assert_eq!(take(&mut q), Some("B"));
    assert_eq!(take(&mut q), Some("C"));
    assert!(matches!(q.next_item(), PopResult::Pending));
}

#[test]
fn deferred_event_while_full_returns_at_once() {
    let mut q = started(1);
    assert_eq!(q.enqueue_item(buf("A", 1)), Admission::Done(Ok(())));
    let caps = ev("caps", EventKind::Other, true);
    assert_eq!(q.enqueue_item(caps), Admission::Done(Ok(())));
    assert_eq!(take(&mut q), Some("A"));
    // The next submission first moves the staged event, then queues behind it.
    assert_eq!(q.enqueue_item(buf("B", 1)), Admission::Done(Ok(())));
    assert_eq!(take(&mut q), Some("caps"));
    let (tx, _rx) = channel();
    assert_eq!(q.drain_pending(tx), DrainStep::Finished);
    assert_eq!(take(&mut q), Some("B"));
}

#[test]
fn items_behind_a_scheduled_drain_are_staged() {
    let mut q = started(1);
    assert_eq!(q.enqueue_item(buf("A", 1)), Admission::Done(Ok(())));
    assert_eq!(q.enqueue_item(buf("B", 1)), Admission::Wait);
    assert_eq!(q.enqueue_item(buf("C", 1)), Admission::Done(Ok(())));
    assert_eq!(take(&mut q), Some("A"));
    let (tx, _rx) = channel();
    assert_eq!(q.drain_pending(tx), DrainStep::Wait);
    assert_eq!(take(&mut q), Some("B"));
    let (tx, _rx) = channel();
    assert_eq!(q.drain_pending(tx), DrainStep::Finished);
    assert_eq!(take(&mut q), Some("C"));
}

#[test]
fn eos_while_full_schedules_the_drain() {
    let mut q = started(1);
    assert_eq!(q.enqueue_item(buf("A", 1)), Admission::Done(Ok(())));
    assert_eq!(q.enqueue_item(ev("eos", EventKind::Eos, true)), Admission::Wait);
}

#[test]
fn stop_wakes_a_blocked_producer() {
    let mut q = started(1);
    let (tx, rx) = channel();
    assert_eq!(q.enqueue_item(buf("A", 1)), Admission::Done(Ok(())));
    assert_eq!(q.enqueue_item(buf("B", 1)), Admission::Wait);
    assert_eq!(q.drain_pending(tx), DrainStep::Wait);
    assert!(!woken(&rx));
    let kept = q.stop();
    assert!(kept.is_empty());
    assert!(woken(&rx));
    let (tx2, _rx2) = channel();
    assert_eq!(q.drain_pending(tx2), DrainStep::Gone);
    assert_eq!(q.last_result(), Err(FlowError::Flushing));
    assert!(matches!(q.next_item(), PopResult::Stopped));
}

#[test]
fn stop_forwards_sticky_events() {
    let mut q = started(0);
    assert_eq!(q.enqueue_item(ev("caps", EventKind::Other, true)), Admission::Done(Ok(())));
    assert_eq!(q.enqueue_item(buf("A", 1)), Admission::Done(Ok(())));
    assert_eq!(q.enqueue_item(ev("seg", EventKind::Segment, true)), Admission::Done(Ok(())));
    assert_eq!(q.enqueue_item(ev("eos", EventKind::Eos, true)), Admission::Done(Ok(())));
    let kept = q.stop();
    let names: Vec<&str> = kept.iter().map(|i| i.payload).collect();
    assert_eq!(names, vec!["caps"]);
    assert_eq!(q.state(), Some(DataQueueState::Stopped));
}

#[test]
fn round_trip_through_stop_and_flush_stop() {
    let mut q = started(2);
    let names = ["a", "b", "c", "d", "e"];
    let mut out = Vec::new();
    for n in names.iter() {
        if q.enqueue_item(buf(n, 1)) == Admission::Wait {
            loop {
                let (tx, _rx) = channel();
                match q.drain_pending(tx) {
                    DrainStep::Wait => out.push(take(&mut q).unwrap()),
                    _ => break,
                }
            }
        }
    }
    while let Some(n) = take(&mut q) {
        out.push(n);
    }
    assert_eq!(out, names.to_vec());
    assert!(q.stop().is_empty());
    assert!(q.flush_stop());
    assert!(matches!(q.next_item(), PopResult::Pending));
    // Flush-stop recovers from the flush: the next submission is answered Ok.
    assert_eq!(q.last_result(), Ok(()));
    assert_eq!(q.enqueue_item(buf("f", 1)), Admission::Done(Ok(())));
    assert_eq!(take(&mut q), Some("f"));
    assert_eq!(q.forwarded(Ok(())), TaskAction::Continue);
    assert_eq!(q.last_result(), Ok(()));
}

#[test]
fn prepare_fails_without_context() {
    let mut q: Q = Queue::new();
    assert_eq!(q.prepare(&Settings::default(), false), Err(PrepareError::OpenRead));
    assert_eq!(q.state(), Some(DataQueueState::Stopped));
}

#[test]
fn unprepared_queue_refuses_items() {
    let mut q: Q = Queue::new();
    assert_eq!(q.state(), None);
    assert_eq!(q.enqueue_item(buf("a", 1)), Admission::Done(Err(FlowError::Error)));
    assert!(matches!(q.next_item(), PopResult::Stopped));
    let (tx, _rx) = channel();
    assert_eq!(q.drain_pending(tx), DrainStep::Gone);
}

#[test]
fn start_twice_spawns_once() {
    let mut q = started(5);
    assert!(!q.start());
    assert!(!q.flush_stop());
    assert_eq!(q.state(), Some(DataQueueState::Started));
}

#[test]
fn forwarding_outcomes() {
    let mut q = started(5);
    assert_eq!(q.forwarded(Err(FlowError::Flushing)), TaskAction::Stop);
    assert_eq!(q.last_result(), Err(FlowError::Flushing));
    assert_eq!(q.forwarded(Err(FlowError::Eos)), TaskAction::SendEos);
    assert_eq!(q.last_result(), Err(FlowError::Eos));
    assert_eq!(q.forwarded(Err(FlowError::NotLinked)), TaskAction::Fail(FlowError::NotLinked));
    assert_eq!(q.last_result(), Err(FlowError::NotLinked));
    assert_eq!(q.enqueue_item(buf("a", 1)), Admission::Done(Err(FlowError::NotLinked)));
    assert_eq!(q.forwarded(Ok(())), TaskAction::Continue);
    assert_eq!(q.last_result(), Ok(()));
}

#[test]
fn unprepare_resets() {
    let mut q = started(1);
    assert_eq!(q.enqueue_item(buf("a", 1)), Admission::Done(Ok(())));
    q.stop();
    q.unprepare();
    assert_eq!(q.state(), None);
    assert_eq!(q.last_result(), Ok(()));
}

#[test]
fn flush_events_stop_and_restart() {
    let mut q = started(3);
    assert_eq!(q.enqueue_item(ev("caps", EventKind::Other, true)), Admission::Done(Ok(())));
    assert!(matches!(q.handle_flush(EventKind::Other), FlushAction::Nothing));
    match q.handle_flush(EventKind::FlushStart) {
        FlushAction::Stopped(kept) => assert_eq!(kept.len(), 1),
        _ => panic!("flush-start did not stop"),
    }
    assert_eq!(q.last_result(), Err(FlowError::Flushing));
    assert!(matches!(q.handle_flush(EventKind::FlushStop), FlushAction::Restarted(true)));
    assert_eq!(q.state(), Some(DataQueueState::Started));
    assert_eq!(q.last_result(), Ok(()));
    let mut idle: Q = Queue::new();
    assert!(matches!(idle.handle_flush(EventKind::FlushStop), FlushAction::Restarted(false)));
}

#[test]
fn pull_mode_is_not_offered() {
    let modes = vec![PadMode::Push, PadMode::Pull, PadMode::Inactive, PadMode::Pull];
    assert_eq!(scheduling_modes_without_pull(&modes), vec![PadMode::Push, PadMode::Inactive]);
    assert!(scheduling_modes_without_pull(&Vec::new()).is_empty());
}
