//! The event loop

use embedded_eventloop::eventloop::EventLoop;
use embedded_eventloop::threadsafe::ThreadSafeCell;

/// The callback shape the tests register: every listener of one event loop
/// shares it, as the function pointers of a firmware image would.
type Callback = fn(Vec<u8>) -> Option<Vec<u8>>;

/// Consumes an event without continuing the chain.
fn drop_event(_payload: Vec<u8>) -> Option<Vec<u8>> {
    None
}

/// Hands the event on unchanged, continuing the chain.
fn forward_event(payload: Vec<u8>) -> Option<Vec<u8>> {
    Some(payload)
}

/// Continues the chain with the first byte incremented.
fn increment_first(payload: Vec<u8>) -> Option<Vec<u8>> {
    let mut next = payload;
    if !next.is_empty() && next[0] < u8::MAX {
        next[0] += 1;
    }
    Some(next)
}

#[test]
fn threadsafe_cell_new() {
    let _cell = ThreadSafeCell::new(7u32);
}

#[test]
fn eventloop_send_and_dispatch() {
    let mut el: EventLoop<Callback> = EventLoop::new(16, 4, 4);
    assert!(el.listen(1, drop_event as Callback).is_ok());
    assert!(el.send(1, vec![42]).is_ok());

    // The single subscribed listener is invoked exactly once
    let invoked = el.dispatch_one().expect("backlog should hold one event");
    assert_eq!(invoked, vec![0]);

    // The backlog is empty afterwards
    assert!(el.dispatch_one().is_none());
}

#[test]
fn eventloop_chain() {
    let mut el: EventLoop<Callback> = EventLoop::new(16, 4, 4);
    el.listen(1, forward_event as Callback).unwrap();
    el.listen(2, forward_event as Callback).unwrap();
    el.listen(1, drop_event as Callback).unwrap();
    el.listen(1, forward_event as Callback).unwrap();
    el.send(1, vec![9]).unwrap();

    // The listener of another tag is skipped; the chain halts at the first
    // listener returning no continuation, even though a later listener of the
    // same tag exists
    let invoked = el.dispatch_one().expect("backlog should hold one event");
    assert_eq!(invoked, vec![0, 2]);
    assert!(el.dispatch_one().is_none());
}

#[test]
fn eventloop_chain_continues() {
    let mut el: EventLoop<Callback> = EventLoop::new(16, 4, 4);
    el.listen(1, increment_first as Callback).unwrap();
    el.listen(1, increment_first as Callback).unwrap();
    el.listen(1, drop_event as Callback).unwrap();
    el.send(1, vec![0]).unwrap();

    // Each continuation feeds the next listener of the same tag
    let invoked = el.dispatch_one().expect("backlog should hold one event");
    assert_eq!(invoked, vec![0, 1, 2]);
}

#[test]
fn eventloop_unmatched_event_is_discarded() {
    let mut el: EventLoop<Callback> = EventLoop::new(16, 4, 4);
    el.listen(2, forward_event as Callback).unwrap();
    el.send(1, vec![3]).unwrap();

    // No listener subscribes to the tag: the pass invokes nobody
    let invoked = el.dispatch_one().expect("backlog should hold one event");
    assert_eq!(invoked, Vec::<usize>::new());
    assert!(el.dispatch_one().is_none());
}

#[test]
fn eventloop_backlog_capacity() {
    let mut el: EventLoop<Callback> = EventLoop::new(16, 2, 4);
    assert!(el.send(1, vec![1]).is_ok());
    assert!(el.send(1, vec![2]).is_ok());

    // A full backlog returns the event bytes unchanged
    assert_eq!(el.send(1, vec![3]), Err(vec![3]));

    // One dispatched event frees exactly one slot
    assert!(el.dispatch_one().is_some());
    assert!(el.send(1, vec![3]).is_ok());
    assert_eq!(el.send(1, vec![4]), Err(vec![4]));
}

#[test]
fn eventloop_oversized_event() {
    let mut el: EventLoop<Callback> = EventLoop::new(2, 4, 4);

    // An event larger than the box capacity comes back unchanged
    assert_eq!(el.send(1, vec![1, 2, 3]), Err(vec![1, 2, 3]));
    assert!(el.dispatch_one().is_none());
}

#[test]
fn eventloop_registry_capacity() {
    let mut el: EventLoop<Callback> = EventLoop::new(16, 4, 1);
    assert!(el.listen(1, drop_event as Callback).is_ok());

    // A full registry rejects the callback, and bootstrap then rejects the
    // seed event unchanged
    assert!(el.listen(1, drop_event as Callback).is_err());
    assert_eq!(el.bootstrap(1, vec![5], drop_event as Callback), Err(vec![5]));
}

#[test]
fn eventloop_bootstrap() {
    let mut el: EventLoop<Callback> = EventLoop::new(16, 4, 4);
    assert!(el.bootstrap(5, vec![1, 2], drop_event as Callback).is_ok());

    // The seeded listener is invoked although nothing else ever sends
    let invoked = el.dispatch_one().expect("bootstrap should have queued the seed event");
    assert_eq!(invoked, vec![0]);
    assert!(el.dispatch_one().is_none());
}
