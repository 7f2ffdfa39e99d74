//! An event loop.
//!
//! Producers box an event and push it into a bounded backlog; the dispatch
//! pass pops one event and scans the listener registry in registration order,
//! invoking every listener of the event's type while the chain continues.
//! Backlog and registry each sit behind their own threadsafe cell, and the two
//! are never held at once, so no lock-ordering deadlock can arise.

use crate::boxes::fits;
use crate::boxes::StackBox;
use crate::collections::RingBuf;
use crate::collections::Stack;
use crate::threadsafe::ThreadSafeCell;
use vstd::prelude::*;

verus! {

/// An event listener: the type tag it subscribes to and its callback.
///
/// The callback takes the bytes of one event of the tagged type and may return
/// a continuation value of the same type to keep the chain going, or end the
/// chain by returning nothing.
#[derive(Clone, Copy)]
pub struct Listener<F> {
    /// The type tag the listener subscribes to
    pub tag: u64,
    /// The callback
    pub callback: F,
}

/// What the event loop demands of every registered callback: it accepts any
/// payload, and any continuation it returns fits back into an event box of
/// byte capacity `size`.
pub open spec fn listener_wf<F: Fn(Vec<u8>) -> Option<Vec<u8>>>(
    l: Listener<F>,
    size: nat,
) -> bool {
    &&& forall|p: Vec<u8>| #[trigger] call_requires(l.callback, (p,))
    &&& forall|p: Vec<u8>, q: Option<Vec<u8>>|
        #[trigger] call_ensures(l.callback, (p,), q) ==> (q matches Some(c) ==> c@.len() <= size)
}

/// Whether some listener in `regs[lo..hi]` subscribes to `tag`.
pub open spec fn matching_in<F>(regs: Seq<Listener<F>>, tag: u64, lo: int, hi: int) -> bool {
    exists|j: int| lo <= j < hi && (#[trigger] regs[j]).tag == tag
}

/// One link of a dispatch chain: handed bytes equal to `arg`, the callback can
/// return `out` (bytes compared by contents).
pub open spec fn callback_step<F: Fn(Vec<u8>) -> Option<Vec<u8>>>(
    cb: F,
    arg: Seq<u8>,
    out: Option<Seq<u8>>,
) -> bool {
    exists|a: Vec<u8>, b: Option<Vec<u8>>|
        {
            &&& a@ == arg
            &&& #[trigger] call_ensures(cb, (a,), b)
            &&& match (b, out) {
                (Some(bv), Some(ov)) => bv@ == ov,
                (None, None) => true,
                _ => false,
            }
        }
}

/// The bytes of a continuation box, if any.
pub open spec fn continuation_view(r: Option<StackBox>) -> Option<Seq<u8>> {
    match r {
        Some(b) => Some(b.payload()),
        None => None,
    }
}

/// A dispatch pass over the state `prior` produced the invocations `inv`:
/// some chain of handed-over bytes records it, starting from the oldest
/// pending event of `prior`.
pub open spec fn dispatched<F: Fn(Vec<u8>) -> Option<Vec<u8>> + Copy>(
    prior: EventLoop<F>,
    inv: Seq<usize>,
) -> bool {
    exists|chain: Seq<Seq<u8>>|
        dispatch_trace(prior.registry(), prior.backlog()[0].0, prior.backlog()[0].1, inv, chain)
}

/// The record of one dispatch pass over the registry `regs` for an event of
/// type `tag` carrying `payload`: `inv` lists the positions of the invoked
/// listeners, in registration order, and `chain[k]` holds the bytes the `k`-th
/// of them was handed.
pub open spec fn dispatch_trace<F: Fn(Vec<u8>) -> Option<Vec<u8>>>(
    regs: Seq<Listener<F>>,
    tag: u64,
    payload: Seq<u8>,
    inv: Seq<usize>,
    chain: Seq<Seq<u8>>,
) -> bool {
    &&& chain.len() == inv.len()
    // every invoked listener subscribes to the event's tag
    &&& forall|k: int|
        0 <= k < inv.len() ==> #[trigger] inv[k] < regs.len() && regs[inv[k] as int].tag == tag
    // invocations happen in registration order
    &&& forall|k: int| 0 < k < inv.len() ==> inv[k - 1] < #[trigger] inv[k]
    // some listener subscribes to the tag exactly when the pass invokes at all
    &&& (inv.len() > 0 <==> matching_in(regs, tag, 0, regs.len() as int))
    // the chain starts at the first subscribed listener with the event itself
    &&& (inv.len() > 0 ==> chain[0] == payload && !matching_in(regs, tag, 0, inv[0] as int))
    // no subscribed listener inside the chain is skipped
    &&& forall|k: int|
        0 < k < inv.len() ==> !matching_in(regs, tag, inv[k - 1] + 1, #[trigger] inv[k] as int)
    // each continuation feeds the next invocation
    &&& forall|k: int|
        0 < k < inv.len() ==> callback_step(
            regs[inv[k - 1] as int].callback,
            chain[k - 1],
            Some(#[trigger] chain[k]),
        )
    // the chain ends with no continuation or an exhausted registry
    &&& (inv.len() > 0 ==> {
        let last = inv.len() - 1;
        ||| callback_step(regs[inv[last] as int].callback, chain[last], None)
        ||| !matching_in(regs, tag, inv[last] + 1, regs.len() as int)
    })
}

/// A single subscribed listener is invoked exactly once, with bytes equal to
/// the event's own: when `regs[j]` is the only listener of `tag`, any
/// dispatch pass for a `tag`-event carrying `payload` invokes position `j`
/// and nothing else, handing it `payload` itself.
pub proof fn lemma_single_listener_invoked_once<F: Fn(Vec<u8>) -> Option<Vec<u8>>>(
    regs: Seq<Listener<F>>,
    tag: u64,
    payload: Seq<u8>,
    inv: Seq<usize>,
    chain: Seq<Seq<u8>>,
    j: int,
)
    requires
        0 <= j < regs.len(),
        regs[j].tag == tag,
        forall|k: int| 0 <= k < regs.len() && k != j ==> (#[trigger] regs[k]).tag != tag,
        dispatch_trace(regs, tag, payload, inv, chain),
    ensures
        inv.len() == 1,
        inv[0] == j,
        chain[0] == payload,
{
    assert(matching_in(regs, tag, 0, regs.len() as int)) by {
        assert((regs[j]).tag == tag);
    }
    assert(inv.len() > 0);
    assert(inv[0] as int == j);
    if inv.len() > 1 {
        assert(inv[1] as int == j);
        assert(inv[0] < inv[1]);
        assert(false);
    }
}

/// The seeding guarantee behind [`EventLoop::bootstrap`]: when no listener of
/// `tag` was registered before, the freshly appended listener is the first
/// match, so any dispatch pass over the new registry for a `tag`-event
/// carrying `payload` invokes it first, handing it `payload` itself.
pub proof fn lemma_seed_invoked<F: Fn(Vec<u8>) -> Option<Vec<u8>>>(
    regs: Seq<Listener<F>>,
    listener: Listener<F>,
    tag: u64,
    payload: Seq<u8>,
    inv: Seq<usize>,
    chain: Seq<Seq<u8>>,
)
    requires
        listener.tag == tag,
        !matching_in(regs, tag, 0, regs.len() as int),
        dispatch_trace(regs.push(listener), tag, payload, inv, chain),
    ensures
        inv.len() > 0,
        inv[0] == regs.len(),
        chain[0] == payload,
{
    let appended = regs.push(listener);
    assert(matching_in(appended, tag, 0, appended.len() as int)) by {
        assert((appended[regs.len() as int]).tag == tag);
    }
    assert(inv.len() > 0);
    if (inv[0] as int) < regs.len() {
        assert(appended[inv[0] as int].tag == tag);
        assert(appended[inv[0] as int] == regs[inv[0] as int]);
        assert(matching_in(regs, tag, 0, regs.len() as int)) by {
            assert((regs[inv[0] as int]).tag == tag);
        }
        assert(false);
    }
}

/// Pushes one boxed event into the backlog with preemption suspended.
///
/// Relies on critical_section::with: it acquires the critical section, runs
/// the given closure exactly once, releases, and returns the closure's result;
/// the closure only calls the verified `RingBuf::push` on the cell's value.
#[verifier::external_body]
fn scoped_backlog_push(cell: &mut ThreadSafeCell<RingBuf<StackBox>>, element: StackBox) -> (r: Result<(), StackBox>)
    requires
        old(cell).inner().wf(),
    ensures
        final(cell).inner().wf(),
        final(cell).inner().capacity() == old(cell).inner().capacity(),
        old(cell).inner()@.len() < old(cell).inner().capacity() ==> r is Ok
            && final(cell).inner()@ == old(cell).inner()@.push(element),
        old(cell).inner()@.len() >= old(cell).inner().capacity() ==> (r matches Err(e) && e == element)
            && *final(cell) == *old(cell),
{
    critical_section::with(|_cs| cell.value.push(element))
}

/// Pops the oldest boxed event from the backlog with preemption suspended.
///
/// Relies on critical_section::with: it acquires the critical section, runs
/// the given closure exactly once, releases, and returns the closure's result;
/// the closure only calls the verified `RingBuf::pop` on the cell's value.
#[verifier::external_body]
fn scoped_backlog_pop(cell: &mut ThreadSafeCell<RingBuf<StackBox>>) -> (r: Option<StackBox>)
    requires
        old(cell).inner().wf(),
    ensures
        final(cell).inner().wf(),
        final(cell).inner().capacity() == old(cell).inner().capacity(),
        old(cell).inner()@.len() == 0 ==> r is None && *final(cell) == *old(cell),
        old(cell).inner()@.len() > 0 ==> r == Some(old(cell).inner()@[0]) && final(cell).inner()@
            == old(cell).inner()@.skip(1),
{
    critical_section::with(|_cs| cell.value.pop())
}

/// Appends one listener record to the registry with preemption suspended.
///
/// Relies on critical_section::with: it acquires the critical section, runs
/// the given closure exactly once, releases, and returns the closure's result;
/// the closure only calls the verified `Stack::push` on the cell's value.
#[verifier::external_body]
fn scoped_registry_push<F>(cell: &mut ThreadSafeCell<Stack<Listener<F>>>, listener: Listener<F>) -> (r: Result<(), Listener<F>>)
    ensures
        final(cell).inner().capacity() == old(cell).inner().capacity(),
        old(cell).inner()@.len() < old(cell).inner().capacity() ==> r is Ok
            && final(cell).inner()@ == old(cell).inner()@.push(listener),
        old(cell).inner()@.len() >= old(cell).inner().capacity() ==> (r matches Err(e) && e == listener)
            && *final(cell) == *old(cell),
{
    critical_section::with(|_cs| cell.value.push(listener))
}

/// Takes a snapshot of the registry with preemption suspended, so the scan of
/// a dispatch pass runs outside the critical section on an unchanging copy.
///
/// Relies on critical_section::with: it acquires the critical section, runs
/// the given closure exactly once, releases, and returns the closure's result;
/// the closure only calls the verified `Stack::duplicate` on the cell's value.
#[verifier::external_body]
fn scoped_registry_snapshot<F: Copy>(cell: &ThreadSafeCell<Stack<Listener<F>>>) -> (r: Stack<
    Listener<F>,
>)
    ensures
        r@ == cell.inner()@,
        r.capacity() == cell.inner().capacity(),
{
    critical_section::with(|_cs| cell.value.duplicate())
}

/// An event loop: a backlog of boxed events and a registry of listeners, each
/// behind its own threadsafe cell.
pub struct EventLoop<F> {
    /// The byte capacity of each event box
    box_size: usize,
    /// The event backlog
    events: ThreadSafeCell<RingBuf<StackBox>>,
    /// The event listeners
    listeners: ThreadSafeCell<Stack<Listener<F>>>,
}

impl<F: Fn(Vec<u8>) -> Option<Vec<u8>> + Copy> EventLoop<F> {
    /// The byte capacity of each event box.
    pub closed spec fn box_size(self) -> nat {
        self.box_size as nat
    }

    /// The pending events, oldest first, each as its type tag and its bytes.
    pub closed spec fn backlog(self) -> Seq<(u64, Seq<u8>)> {
        Seq::new(
            self.events.inner()@.len(),
            |i: int| (self.events.inner()@[i].type_tag(), self.events.inner()@[i].payload()),
        )
    }

    /// The backlog capacity.
    pub closed spec fn backlog_capacity(self) -> nat {
        self.events.inner().capacity()
    }

    /// The registered listeners, in registration order.
    pub closed spec fn registry(self) -> Seq<Listener<F>> {
        self.listeners.inner()@
    }

    /// The registry capacity.
    pub closed spec fn registry_capacity(self) -> nat {
        self.listeners.inner().capacity()
    }

    /// Valid state: the queue's cursors cohere, every pending box was built
    /// with the loop's box capacity, and every registered callback is total
    /// and returns continuations that fit an event box.
    pub closed spec fn wf(self) -> bool {
        &&& self.events.inner().wf()
        &&& forall|i: int|
            0 <= i < self.events.inner()@.len() ==> (#[trigger] self.events.inner()@[i]).capacity()
                == self.box_size()
        &&& forall|i: int|
            0 <= i < self.registry().len() ==> listener_wf(
                #[trigger] self.registry()[i],
                self.box_size(),
            )
    }

    /// Creates a new event loop with event boxes of `box_size` bytes, a
    /// backlog of capacity `backlog_max` and a registry of capacity
    /// `listeners_max`.
    pub fn new(box_size: usize, backlog_max: usize, listeners_max: usize) -> (r: Self)
        ensures
            r.wf(),
            r.box_size() == box_size,
            r.backlog() == Seq::<(u64, Seq<u8>)>::empty(),
            r.backlog_capacity() == backlog_max,
            r.registry() == Seq::<Listener<F>>::empty(),
            r.registry_capacity() == listeners_max,
    {
        let events = ThreadSafeCell::new(RingBuf::new(backlog_max));
        let listeners = ThreadSafeCell::new(Stack::new(listeners_max));
        let r = EventLoop { box_size, events, listeners };
        proof {
            assert(r.backlog() =~= Seq::<(u64, Seq<u8>)>::empty());
        }
        r
    }

    /// Adds a listener which receives all events of the type tagged `tag`; a
    /// full registry rejects the callback unchanged.
    ///
    /// Multiple listeners of one tag chain: if the first invoked listener
    /// returns a continuation, the next registered listener of the same tag is
    /// invoked with it, and so on; a listener returning nothing ends the
    /// chain.
    pub fn listen(&mut self, tag: u64, callback: F) -> (r: Result<(), F>)
        requires
            old(self).wf(),
            forall|p: Vec<u8>| #[trigger] call_requires(callback, (p,)),
            forall|p: Vec<u8>, q: Option<Vec<u8>>|
                #[trigger] call_ensures(callback, (p,), q) ==> (q matches Some(c) ==> c@.len()
                    <= old(self).box_size()),
        ensures
            final(self).wf(),
            final(self).box_size() == old(self).box_size(),
            final(self).backlog() == old(self).backlog(),
            final(self).backlog_capacity() == old(self).backlog_capacity(),
            final(self).registry_capacity() == old(self).registry_capacity(),
            old(self).registry().len() < old(self).registry_capacity() ==> r is Ok && final(self).registry() == old(self).registry().push((Listener { tag, callback })),
            old(self).registry().len() >= old(self).registry_capacity() ==> r == Err::<(), F>(
                callback,
            ) && final(self).registry() == old(self).registry(),
    {
        let listener = Listener { tag, callback };
        // Insert the listener
        if scoped_registry_push(&mut self.listeners, listener).is_err() {
            return Err(callback);
        }
        Ok(())
    }

    /// Sends one event, given as its type tag and its bytes, to the event
    /// loop; the bytes come back unchanged when they exceed the box capacity
    /// or when the backlog is full, and are never silently dropped.  After a
    /// successful send the caller raises the platform wake signal so a
    /// dispatch loop blocked on wait-for-event resumes.
    pub fn send(&mut self, tag: u64, event: Vec<u8>) -> (r: Result<(), Vec<u8>>)
        requires
            old(self).wf(),
        ensures
            final(self).wf(),
            final(self).box_size() == old(self).box_size(),
            final(self).registry() == old(self).registry(),
            final(self).backlog_capacity() == old(self).backlog_capacity(),
            final(self).registry_capacity() == old(self).registry_capacity(),
            !fits(old(self).box_size(), event@) ==> r == Err::<(), Vec<u8>>(event) && final(self).backlog() == old(self).backlog(),
            fits(old(self).box_size(), event@) && old(self).backlog().len() < old(self).backlog_capacity() ==> r is Ok && final(self).backlog() == old(self).backlog().push(
                ((tag, event@)),
            ),
            fits(old(self).box_size(), event@) && old(self).backlog().len() >= old(self).backlog_capacity() ==> (r matches Err(v) && v@ == event@) && final(self).backlog()
                == old(self).backlog(),
    {
        // Box the event
        let event_box = match StackBox::new(self.box_size, tag, event) {
            Ok(b) => b,
            Err(event) => {
                return Err(event);
            },
        };
        // Insert the event
        match scoped_backlog_push(&mut self.events, event_box) {
            Ok(_) => {
                proof {
                    assert forall|i: int| 0 <= i < self.events.inner()@.len() implies (
                    #[trigger] self.events.inner()@[i]).capacity() == self.box_size() by {
                        let prev = old(self).events.inner()@;
                        assert(self.events.inner()@ == prev.push(event_box));
                        if i < prev.len() {
                            assert(prev[i].capacity() == old(self).box_size());
                        }
                    }
                    assert(self.registry() == old(self).registry());
                    assert forall|i: int| 0 <= i < self.registry().len() implies listener_wf(
                        #[trigger] self.registry()[i],
                        self.box_size(),
                    ) by {
                        assert(listener_wf(old(self).registry()[i], old(self).box_size()));
                    }
                    assert(final(self).backlog() =~= old(self).backlog().push((tag, event@)));
                }
                Ok(())
            },
            Err(event_box) => {
                // The backlog is full: recover the original event bytes
                match event_box.into_inner(tag) {
                    Ok(v) => Err(v),
                    Err(_) => vstd::pervasive::unreached(),
                }
            },
        }
    }

    /// Adds a listener exactly as [`EventLoop::listen`] does, then immediately
    /// sends `event`, guaranteeing the new listener is invoked at least once
    /// even if no other producer ever sends.  This bootstraps self-sustaining
    /// event sources such as periodic timers.
    pub fn bootstrap(&mut self, tag: u64, event: Vec<u8>, callback: F) -> (r: Result<(), Vec<u8>>)
        requires
            old(self).wf(),
            forall|p: Vec<u8>| #[trigger] call_requires(callback, (p,)),
            forall|p: Vec<u8>, q: Option<Vec<u8>>|
                #[trigger] call_ensures(callback, (p,), q) ==> (q matches Some(c) ==> c@.len()
                    <= old(self).box_size()),
        ensures
            final(self).wf(),
            final(self).box_size() == old(self).box_size(),
            final(self).backlog_capacity() == old(self).backlog_capacity(),
            final(self).registry_capacity() == old(self).registry_capacity(),
            old(self).registry().len() >= old(self).registry_capacity() ==> r == Err::<(), Vec<u8>>(
                event,
            ) && final(self).registry() == old(self).registry() && final(self).backlog() == old(self).backlog(),
            old(self).registry().len() < old(self).registry_capacity() ==> final(self).registry()
                == old(self).registry().push((Listener { tag, callback })) && {
                &&& !fits(old(self).box_size(), event@) ==> r == Err::<(), Vec<u8>>(event) && final(self).backlog() == old(self).backlog()
                &&& fits(old(self).box_size(), event@) && old(self).backlog().len() < old(self).backlog_capacity() ==> r is Ok && final(self).backlog() == old(self).backlog().push(((tag, event@)))
                &&& fits(old(self).box_size(), event@) && old(self).backlog().len() >= old(self).backlog_capacity() ==> (r matches Err(v) && v@ == event@) && final(self).backlog()
                    == old(self).backlog()
            },
    {
        // Register the listener
        if self.listen(tag, callback).is_err() {
            return Err(event);
        }
        // Send the seed event
        self.send(tag, event)
    }

    /// One dispatch pass.  Pops the oldest pending event, if any, and scans a
    /// snapshot of the registry in registration order, invoking every listener
    /// of the event's tag while the chain continues; whatever event value is
    /// left unconsumed at the end of the pass is destroyed.  Returns the
    /// positions of the invoked listeners in registration order, or nothing
    /// when the backlog was empty and the caller should block on the
    /// platform's wait-for-event before checking again.
    #[verifier::rlimit(100)]
    pub fn dispatch_one(&mut self) -> (r: Option<Vec<usize>>)
        requires
            old(self).wf(),
        ensures
            final(self).wf(),
            final(self).box_size() == old(self).box_size(),
            final(self).registry() == old(self).registry(),
            final(self).registry_capacity() == old(self).registry_capacity(),
            final(self).backlog_capacity() == old(self).backlog_capacity(),
            old(self).backlog().len() == 0 ==> r is None && final(self).backlog() == old(
                self,
            ).backlog(),
            old(self).backlog().len() > 0 ==> final(self).backlog() == old(self).backlog().skip(
                1,
            ),
            old(self).backlog().len() > 0 ==> (r matches Some(invoked) && dispatched(
                *old(self),
                invoked@,
            )),
    {
        // Wait for an event
        let popped = scoped_backlog_pop(&mut self.events);
        let event_box = match popped {
            Some(event_box) => event_box,
            None => {
                proof {
                    assert(final(self).backlog() =~= old(self).backlog());
                }
                return None;
            },
        };
        proof {
            assert(self.backlog() =~= old(self).backlog().skip(1));
            assert(event_box == old(self).events.inner()@[0]);
            assert(event_box.capacity() == old(self).box_size());
            assert forall|i: int| 0 <= i < self.events.inner()@.len() implies (
            #[trigger] self.events.inner()@[i]).capacity() == self.box_size() by {
                assert(self.events.inner()@[i] == old(self).events.inner()@[i + 1]);
                assert((old(self).events.inner()@[i + 1]).capacity() == old(self).box_size());
            }
            assert forall|i: int| 0 <= i < self.registry().len() implies listener_wf(
                #[trigger] self.registry()[i],
                self.box_size(),
            ) by {
                assert(listener_wf(old(self).registry()[i], old(self).box_size()));
            }
            assert(self.wf());
        }
        // Snapshot the listeners and scan them for matches, in order
        let snapshot = scoped_registry_snapshot(&self.listeners);
        let ghost mid = *self;
        let ghost regs = self.registry();
        let tag = event_box.inner_type_id();
        let ghost payload0 = event_box.payload();
        let mut invoked: Vec<usize> = Vec::new();
        let ghost mut chain: Seq<Seq<u8>> = Seq::empty();
        let mut current: Option<StackBox> = Some(event_box);
        let mut idx: usize = 0;
        while idx < snapshot.len() && current.is_some()
            invariant
                *self == mid,
                mid.wf(),
                regs == mid.registry(),
                snapshot@ == regs,
                idx <= regs.len(),
                invoked@.len() == chain.len(),
                forall|k: int|
                    0 <= k < invoked@.len() ==> #[trigger] invoked@[k] < idx && regs[invoked@[k] as int].tag
                        == tag,
                forall|k: int| 0 < k < invoked@.len() ==> invoked@[k - 1] < #[trigger] invoked@[k],
                invoked@.len() > 0 ==> chain[0] == payload0 && !matching_in(
                    regs,
                    tag,
                    0,
                    invoked@[0] as int,
                ),
                invoked@.len() == 0 ==> !matching_in(regs, tag, 0, idx as int),
                forall|k: int|
                    0 < k < invoked@.len() ==> !matching_in(
                        regs,
                        tag,
                        invoked@[k - 1] + 1,
                        #[trigger] invoked@[k] as int,
                    ),
                forall|k: int|
                    0 < k < invoked@.len() ==> callback_step(
                        regs[invoked@[k - 1] as int].callback,
                        chain[k - 1],
                        Some(#[trigger] chain[k]),
                    ),
                current matches Some(b) ==> b.type_tag() == tag && b.capacity() == mid.box_size()
                    && (invoked@.len() == 0 ==> b.payload() == payload0) && (invoked@.len() > 0
                    ==> callback_step(
                    regs[invoked@[invoked@.len() - 1] as int].callback,
                    chain[invoked@.len() - 1],
                    Some(b.payload()),
                ) && !matching_in(regs, tag, invoked@[invoked@.len() - 1] + 1, idx as int)),
                current is None ==> invoked@.len() > 0 && callback_step(
                    regs[invoked@[invoked@.len() - 1] as int].callback,
                    chain[invoked@.len() - 1],
                    None,
                ),
            decreases regs.len() - idx,
        {
            let listener = *snapshot.get(idx);
            if listener.tag == tag {
                proof {
                    assert(listener_wf(regs[idx as int], mid.box_size()));
                }
                let ev = match current.take() {
                    Some(ev) => ev,
                    None => vstd::pervasive::unreached(),
                };
                let ghost ev_payload = ev.payload();
                let continuation = Self::caller(ev, listener.callback);
                proof {
                    chain = chain.push(ev_payload);
                }
                invoked.push(idx);
                current = continuation;
            }
            idx = idx + 1;
        }
        let ghost chain_open = current is Some;
        // Scope-exit destruction of an unconsumed event
        match current {
            Some(residual) => {
                let _ = residual.drop_impl();
            },
            None => {},
        }
        proof {
            if invoked@.len() > 0 {
                assert((regs[invoked@[0] as int]).tag == tag);
                assert(matching_in(regs, tag, 0, regs.len() as int));
            } else {
                assert(chain_open);
                assert(idx == regs.len());
                assert(!matching_in(regs, tag, 0, regs.len() as int));
            }
            assert(dispatch_trace(regs, tag, payload0, invoked@, chain));
            assert(regs == old(self).registry());
            assert(tag == old(self).backlog()[0].0);
            assert(payload0 == old(self).backlog()[0].1);
            assert(dispatch_trace(
                old(self).registry(),
                old(self).backlog()[0].0,
                old(self).backlog()[0].1,
                invoked@,
                chain,
            ));
            assert(dispatched(*old(self), invoked@));
        }
        Some(invoked)
    }

    /// Calls a callback with one boxed event: the bytes come out of the box
    /// under their own tag, the callback runs, and its continuation, if any,
    /// is boxed again under the same tag and capacity.
    fn caller(event: StackBox, callback: F) -> (r: Option<StackBox>)
        requires
            forall|p: Vec<u8>| #[trigger] call_requires(callback, (p,)),
            forall|p: Vec<u8>, q: Option<Vec<u8>>|
                #[trigger] call_ensures(callback, (p,), q) ==> (q matches Some(c) ==> c@.len()
                    <= event.capacity()),
        ensures
            r matches Some(b) ==> b.type_tag() == event.type_tag() && b.capacity()
                == event.capacity(),
            callback_step(callback, event.payload(), continuation_view(r)),
    {
        let size = event.size();
        let tag = event.inner_type_id();
        let ghost ev = event;
        // Recover the original bytes
        let payload = match event.into_inner(tag) {
            Ok(p) => p,
            Err(_) => {
                return vstd::pervasive::unreached();
            },
        };
        let ghost payload_val = payload;
        // Call the callback and box the continuation
        match callback(payload) {
            Some(c) => {
                let ghost c_val = c;
                match StackBox::new(size, tag, c) {
                    Ok(b) => {
                        proof {
                            assert(call_ensures(callback, (payload_val,), Some(c_val)));
                            assert(callback_step(
                                callback,
                                ev.payload(),
                                continuation_view(Some(b)),
                            ));
                        }
                        Some(b)
                    },
                    Err(_) => vstd::pervasive::unreached(),
                }
            },
            None => {
                proof {
                    assert(call_ensures(callback, (payload_val,), Option::<Vec<u8>>::None));
                    assert(callback_step(
                        callback,
                        ev.payload(),
                        continuation_view(None::<StackBox>),
                    ));
                }
                None
            },
        }
    }
}

} // verus!
