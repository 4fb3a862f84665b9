use threadshare::{
    BufferMeta, DataQueue, DataQueueState, EventInfo, EventKind, Item, Limits, PopResult,
};

fn buf(name: &'static str, size: u32) -> Item<&'static str> {
    Item::buffer(name, BufferMeta { size, ts: None, duration: None })
}

fn timed(name: &'static str, ts: u64, duration: u64) -> Item<&'static str> {
    Item::buffer(name, BufferMeta { size: 1, ts: Some(ts), duration: Some(duration) })
}

fn ev(name: &'static str, kind: EventKind, sticky: bool) -> Item<&'static str> {
    Item::event(name, EventInfo { kind, sticky })
}

fn limits(b: Option<u32>, by: Option<u32>, t: Option<u64>) -> Limits {
    Limits { max_buffers: b, max_bytes: by, max_time: t }
}

fn pop_name(q: &mut DataQueue<&'static str>) -> Option<&'static str> {
    match q.pop() {
        PopResult::Item(it) => Some(it.payload),
        _ => None,
    }
}

#[test]
fn new_queue_is_stopped_and_empty() {
    let mut q: DataQueue<&'static str> = DataQueue::new(limits(None, None, None));
    assert_eq!(q.state(), DataQueueState::Stopped);
    assert_eq!(q.len(), 0);
    assert_eq!(q.level(), (0, 0));
    assert!(matches!(q.pop(), PopResult::Stopped));
}

#[test]
fn pop_is_first_in_first_out() {
    let mut q = DataQueue::new(limits(None, None, None));
    q.start();
    assert!(q.push(buf("a", 1)).is_ok());
    assert!(q.push(buf("b", 2)).is_ok());
    assert!(q.push(buf("c", 3)).is_ok());
    assert_eq!(q.level(), (3, 6));
    assert_eq!(pop_name(&mut q), Some("a"));
    assert_eq!(q.level(), (2, 5));
    assert_eq!(pop_name(&mut q), Some("b"));
    assert_eq!(pop_name(&mut q), Some("c"));
    assert!(matches!(q.pop(), PopResult::Pending));
}

#[test]
fn buffer_limit_turns_away_the_next_buffer() {
    let mut q = DataQueue::new(limits(Some(2), None, None));
    assert!(q.push(buf("a", 10)).is_ok());
    assert!(q.push(buf("b", 10)).is_ok());
    match q.push(buf("c", 10)) {
        Err(back) => assert_eq!(back.payload, "c"),
        Ok(()) => panic!("third buffer admitted"),
    }
    assert_eq!(q.len(), 2);
    assert_eq!(q.level(), (2, 20));
}

#[test]
fn empty_queue_takes_an_oversized_item() {
    let mut q = DataQueue::new(limits(Some(1), Some(4), None));
    assert!(q.push(buf("big", 100)).is_ok());
    assert!(q.push(buf("small", 1)).is_err());
}

#[test]
fn byte_limit() {
    let mut q = DataQueue::new(limits(None, Some(10), None));
    assert!(q.push(buf("a", 6)).is_ok());
    assert!(q.push(buf("b", 4)).is_ok());
    assert!(q.push(buf("c", 1)).is_err());
    // A full queue turns away even an item of no bytes.
    assert!(q.push(ev("e", EventKind::Other, false)).is_err());
}

#[test]
fn time_limit_measures_oldest_start_to_new_end() {
    let mut q = DataQueue::new(limits(None, None, Some(100)));
    assert!(q.push(timed("a", 1000, 10)).is_ok());
    assert!(q.push(timed("b", 1050, 50)).is_ok());
    assert!(q.push(timed("c", 1090, 20)).is_err());
    // Without an end timestamp the time limit is not checked.
    assert!(q.push(buf("d", 1)).is_ok());
}

#[test]
fn time_limit_skipped_without_a_start() {
    let mut q = DataQueue::new(limits(None, None, Some(10)));
    assert!(q.push(buf("a", 1)).is_ok());
    assert!(q.push(timed("b", 0, 1000)).is_ok());
    // The oldest start timestamp is now b's.
    assert!(q.push(timed("c", 500, 600)).is_err());
}

#[test]
fn paused_queue_holds_items() {
    let mut q = DataQueue::new(limits(None, None, None));
    assert!(q.push(buf("a", 1)).is_ok());
    q.pause();
    assert_eq!(q.state(), DataQueueState::Paused);
    assert!(matches!(q.pop(), PopResult::Pending));
    q.start();
    assert_eq!(pop_name(&mut q), Some("a"));
    q.stop();
    assert!(matches!(q.pop(), PopResult::Stopped));
}

#[test]
fn clear_keeps_sticky_events_but_segment_and_eos() {
    let mut q = DataQueue::new(limits(None, None, None));
    assert!(q.push(ev("caps", EventKind::Other, true)).is_ok());
    assert!(q.push(buf("a", 1)).is_ok());
    assert!(q.push(ev("segment", EventKind::Segment, true)).is_ok());
    assert!(q.push(ev("custom", EventKind::Other, false)).is_ok());
    assert!(q.push(ev("eos", EventKind::Eos, true)).is_ok());
    assert!(q.push(ev("tags", EventKind::Other, true)).is_ok());
    let kept = q.clear();
    let names: Vec<&str> = kept.iter().map(|i| i.payload).collect();
    assert_eq!(names, vec!["caps", "tags"]);
    assert_eq!(q.len(), 0);
    assert_eq!(q.level(), (0, 0));
}
