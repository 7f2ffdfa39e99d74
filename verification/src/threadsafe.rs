//! A threadsafe cell type.

use vstd::prelude::*;

verus! {

/// A cell whose value is only ever touched with preemption suspended.
///
/// The cell holds no lock state of its own; exclusivity rests entirely on the
/// external critical-section primitive.  Every access path — producer push,
/// loop pop, registration, registry scan — goes through one of the scoped
/// operations in the `eventloop` module, each of which runs its body inside
/// `critical_section::with`, so no concurrent observer interleaves an access
/// across interrupt and normal contexts on one core.  Scoped operations do not
/// nest: no callback run under a cell touches that cell again.
pub struct ThreadSafeCell<T> {
    /// The wrapped value
    pub(crate) value: T,
}

impl<T> ThreadSafeCell<T> {
    /// The wrapped value.
    pub closed spec fn inner(self) -> T {
        self.value
    }

    /// Creates a new threadsafe cell.
    pub fn new(value: T) -> (r: Self)
        ensures
            r.inner() == value,
    {
        ThreadSafeCell { value }
    }
}

} // verus!
