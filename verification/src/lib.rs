//! A heapless, interrupt-safe event dispatch core.
//!
//! Firmware registers type-tagged listeners and posts type-tagged events from
//! any execution context; a dispatch loop matches backlogged events to
//! listeners in registration order.  No dynamic allocation beyond the bounded
//! containers' fixed backing storage is required, and all shared state is
//! accessed under a critical section.

pub mod boxes;
pub mod collections;
pub mod eventloop;
pub mod threadsafe;
