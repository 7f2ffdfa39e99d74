//! Stack-allocated bounded containers: a push-only list and a circular queue.

use vstd::arithmetic::div_mod::lemma_mod_self_0;
use vstd::arithmetic::div_mod::lemma_small_mod;
use vstd::prelude::*;

verus! {

/// A bounded push-only list that keeps its elements in insertion order.
///
/// Once full, further pushes fail and hand the rejected element back; there is
/// no removal, so the contents only ever grow up to the capacity fixed at
/// construction time.
#[derive(Debug)]
pub struct Stack<T> {
    /// The underlying elements
    elements: Vec<T>,
    /// The fixed capacity
    capacity: usize,
}

impl<T> View for Stack<T> {
    type V = Seq<T>;

    /// The elements, in insertion order.
    closed spec fn view(&self) -> Seq<T> {
        self.elements@
    }
}

impl<T> Stack<T> {
    /// The fixed capacity chosen at construction time.
    pub closed spec fn capacity(self) -> nat {
        self.capacity as nat
    }

    /// Creates a new empty stack with the given capacity.
    pub fn new(capacity: usize) -> (r: Self)
        ensures
            r@ == Seq::<T>::empty(),
            r.capacity() == capacity,
    {
        Stack { elements: Vec::new(), capacity }
    }

    /// Pushes a value onto the stack; a full stack rejects the value unchanged.
    pub fn push(&mut self, value: T) -> (r: Result<(), T>)
        ensures
            final(self).capacity() == old(self).capacity(),
            old(self)@.len() < old(self).capacity() ==> r is Ok && final(self)@ == old(
                self,
            )@.push(value),
            old(self)@.len() >= old(self).capacity() ==> r == Err::<(), T>(value) && *final(self)
                == *old(self),
    {
        // Ensure that we have a free slot
        if self.elements.len() >= self.capacity {
            return Err(value);
        }
        // Insert the value
        self.elements.push(value);
        Ok(())
    }

    /// The number of elements currently held.
    pub fn len(&self) -> (r: usize)
        ensures
            r == self@.len(),
    {
        self.elements.len()
    }

    /// The element at position `i`, counted in insertion order.
    pub fn get(&self, i: usize) -> (r: &T)
        requires
            i < self@.len(),
        ensures
            *r == self@[i as int],
    {
        &self.elements[i]
    }
}

impl<T: Copy> Stack<T> {
    /// An element-for-element copy, used to take a snapshot of a registry
    /// while it is held under a critical section.
    pub fn duplicate(&self) -> (r: Self)
        ensures
            r@ == self@,
            r.capacity() == self.capacity(),
    {
        let mut elements: Vec<T> = Vec::new();
        let mut i: usize = 0;
        while i < self.elements.len()
            invariant
                i <= self.elements.len(),
                elements@ == self.elements@.take(i as int),
            decreases self.elements.len() - i,
        {
            elements.push(self.elements[i]);
            proof {
                assert(elements@ =~= self.elements@.take(i + 1));
            }
            i = i + 1;
        }
        proof {
            assert(elements@ =~= self.elements@);
        }
        Stack { elements, capacity: self.capacity }
    }
}

/// A bounded circular queue with strict first-in-first-out ordering.
///
/// A write cursor and a read cursor wrap modulo the backing size; a push fails
/// exactly when the slot at the write cursor is still occupied, so the usable
/// capacity equals the backing size with no reserved empty slot.
#[derive(Debug)]
pub struct RingBuf<T> {
    /// The ring buffer
    buf: Vec<Option<T>>,
    /// The position of the next free slot
    head: usize,
    /// The position of the next pending element
    tail: usize,
    /// The number of pending elements
    len: usize,
}

impl<T> View for RingBuf<T> {
    type V = Seq<T>;

    /// The pending elements, oldest first.
    closed spec fn view(&self) -> Seq<T> {
        Seq::new(self.len as nat, |i: int| self.buf@[self.slot(i)].unwrap())
    }
}

impl<T> RingBuf<T> {
    /// The fixed capacity chosen at construction time.
    pub closed spec fn capacity(self) -> nat {
        self.buf@.len()
    }

    /// The backing index holding the `i`-th pending element.
    spec fn slot(self, i: int) -> int {
        if self.tail + i < self.buf@.len() {
            self.tail + i
        } else {
            self.tail + i - self.buf@.len()
        }
    }

    /// Whether backing index `k` lies in the window of pending elements.
    spec fn occupied(self, k: int) -> bool {
        let n = self.buf@.len() as int;
        let t = self.tail as int;
        let l = self.len as int;
        if t + l <= n {
            t <= k < t + l
        } else {
            t <= k < n || 0 <= k < t + l - n
        }
    }

    /// The cursors and the occupancy of the backing slots agree.
    pub closed spec fn wf(self) -> bool {
        let n = self.buf@.len() as int;
        &&& self.len <= n
        &&& (n == 0 ==> self.tail == 0 && self.head == 0)
        &&& (n > 0 ==> self.tail < n && self.head < n)
        &&& (n > 0 ==> self.head as int == self.slot(self.len as int))
        &&& (forall|k: int|
            0 <= k < n ==> (#[trigger] self.buf@[k] is Some <==> self.occupied(k)))
    }

    /// Every pending element sits in an occupied slot.
    proof fn lemma_window(self)
        requires
            self.wf(),
        ensures
            forall|i: int| 0 <= i < self.len ==> self.occupied(#[trigger] self.slot(i)),
            forall|i: int| 0 <= i < self.len ==> 0 <= #[trigger] self.slot(i) < self.buf@.len(),
            self.len < self.buf@.len() ==> !self.occupied(self.head as int),
            self.len == self.buf@.len() && self.len > 0 ==> self.occupied(self.head as int),
    {
    }

    /// Creates a new empty ring buffer with the given capacity.
    pub fn new(capacity: usize) -> (r: Self)
        ensures
            r.wf(),
            r@ == Seq::<T>::empty(),
            r.capacity() == capacity,
    {
        let mut buf: Vec<Option<T>> = Vec::new();
        let mut i: usize = 0;
        while i < capacity
            invariant
                i <= capacity,
                buf@.len() == i,
                forall|k: int| 0 <= k < i ==> buf@[k] is None,
            decreases capacity - i,
        {
            buf.push(None);
            i = i + 1;
        }
        let r = RingBuf { buf, head: 0, tail: 0, len: 0 };
        proof {
            assert(r@ =~= Seq::<T>::empty());
        }
        r
    }

    /// Pushes `element` into the queue; a full queue rejects it unchanged.
    pub fn push(&mut self, element: T) -> (r: Result<(), T>)
        requires
            old(self).wf(),
        ensures
            final(self).wf(),
            final(self).capacity() == old(self).capacity(),
            old(self)@.len() < old(self).capacity() ==> r is Ok && final(self)@ == old(
                self,
            )@.push(element),
            old(self)@.len() >= old(self).capacity() ==> r == Err::<(), T>(element) && *final(self)
                == *old(self),
    {
        let n = self.buf.len();
        if n == 0 {
            return Err(element);
        }
        // Check if the head-slot is empty, otherwise the queue is full
        if self.buf[self.head].is_some() {
            proof {
                old(self).lemma_window();
            }
            return Err(element);
        }
        proof {
            old(self).lemma_window();
            assert(self.len < n);
        }
        // Insert the element into the buffer
        let ghost prev = *self;
        self.buf[self.head] = Some(element);
        self.head = (self.head + 1) % n;
        self.len = self.len + 1;
        proof {
            if prev.head + 1 == n {
                lemma_mod_self_0(n as int);
            } else {
                lemma_small_mod((prev.head + 1) as nat, n as nat);
            }
            assert(self.buf@ == prev.buf@.update(prev.head as int, Some(element)));
            assert forall|k: int| 0 <= k < n implies (#[trigger] self.buf@[k] is Some
                <==> self.occupied(k)) by {
                prev.lemma_window();
            }
            assert(final(self).wf());
            prev.lemma_window();
            assert forall|i: int| 0 <= i < prev.len implies self.slot(i) != prev.head as int by {
                assert(prev.occupied(prev.slot(i)));
                assert(!prev.occupied(prev.head as int));
            }
            assert(self@ =~= prev@.push(element));
        }
        Ok(())
    }

    /// Pops the oldest pending element, or reports emptiness.
    pub fn pop(&mut self) -> (r: Option<T>)
        requires
            old(self).wf(),
        ensures
            final(self).wf(),
            final(self).capacity() == old(self).capacity(),
            old(self)@.len() == 0 ==> r is None && *final(self) == *old(self),
            old(self)@.len() > 0 ==> r == Some(old(self)@[0]) && final(self)@ == old(self)@.skip(1),
    {
        let n = self.buf.len();
        if n == 0 {
            return None;
        }
        // Check whether the tail-slot holds a pending element
        if self.buf[self.tail].is_none() {
            proof {
                old(self).lemma_window();
                assert(old(self)@.len() == 0);
            }
            return None;
        }
        proof {
            old(self).lemma_window();
            assert(self.occupied(self.tail as int));
            assert(self.len > 0);
        }
        // Take the element
        let ghost prev = *self;
        let slot = self.buf.remove(self.tail);
        self.buf.insert(self.tail, None);
        let element = match slot {
            Some(element) => element,
            None => {
                proof {
                    assert(false);
                }
                return None;
            },
        };
        self.tail = (self.tail + 1) % n;
        self.len = self.len - 1;
        proof {
            if prev.tail + 1 == n {
                lemma_mod_self_0(n as int);
            } else {
                lemma_small_mod((prev.tail + 1) as nat, n as nat);
            }
            assert(self.buf@ =~= prev.buf@.update(prev.tail as int, None));
            assert forall|k: int| 0 <= k < n implies (#[trigger] self.buf@[k] is Some
                <==> self.occupied(k)) by {
                prev.lemma_window();
            }
            assert(final(self).wf());
            prev.lemma_window();
            assert forall|i: int| 0 <= i < self.len implies #[trigger] self.slot(i) == prev.slot(
                i + 1,
            ) && self.slot(i) != prev.tail as int by {
                assert(prev.occupied(prev.slot(i + 1)));
            }
            assert(element == prev@[0]);
            assert(self@ =~= prev@.skip(1));
        }
        Some(element)
    }
}

} // verus!
