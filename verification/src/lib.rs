//! Cooperative, allocation-free wait primitives for hardware input lines.
//!
//! The crate pairs a fixed-capacity registry of pending line waits with a
//! single-task executor model.  A wait operation on a line handle registers
//! an entry, the line-event service routine reconciles a hardware status
//! bitmask against the registry and collects wake capabilities, and a poll
//! of the returned signal completes once its line has been marked signaled.
//! All shared state is handed around by exclusive borrow; on a target with
//! interrupts, the caller performs each call inside its critical section.

use vstd::prelude::*;

pub mod executor;
pub mod isr;
pub mod pin;
pub mod registry;
pub mod signal;
pub mod wake;

verus! {

/// Errors surfaced by wait operations and registry bookkeeping.
#[derive(Clone, Copy, Debug, PartialEq, Eq, Structural)]
pub enum AsyncError {
    /// The registry already holds its full complement of pending waits.
    CapacityExceeded,
    /// The line already has a pending, not-yet-completed wait.
    AlreadyAwaiting,
    /// The handle is not wired for the requested trigger kind.
    UnsupportedTrigger,
    /// Reserved for unmapped lower-level failures.
    Unknown,
}

/// Hardware condition that raises the line-event interrupt for a line.
#[derive(Clone, Copy, Debug, PartialEq, Eq, Structural)]
pub enum TriggerKind {
    HighLevel,
    LowLevel,
    RisingEdge,
    FallingEdge,
    AnyEdge,
}

} // verus!
