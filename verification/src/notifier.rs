//! Notifier strategies: the wake-up mechanism layered over the lock-free
//! cursor state.
//!
//! Both wake operations are fire-and-forget: they lose no correctness when
//! called while nobody is waiting. The synchronous personality does
//! nothing (callers poll the queue themselves); the asynchronous
//! personality stores one waker per queue end in a `maitake_sync::WaitCell`
//! and wakes it.

use vstd::prelude::*;

verus! {

/// A wake-up mechanism. Implementations must tolerate wakes with no waiter
/// registered; both operations are fire-and-forget.
pub trait Notifier {
    /// Signals that data may have become available.
    fn wake_one_consumer(&self);

    /// Signals that space may have become available.
    fn wake_one_producer(&self);
}

/// The synchronous personality: both wakes are no-ops, callers are expected
/// to poll the coordination engine themselves.
pub struct SyncNotifier;

impl SyncNotifier {
    /// Creates the (stateless) synchronous notifier.
    pub fn new() -> Self {
        SyncNotifier
    }
}

impl Notifier for SyncNotifier {
    fn wake_one_consumer(&self) {
    }

    fn wake_one_producer(&self) {
    }
}

#[verifier::external_type_specification]
#[verifier::external_body]
pub struct ExWaitCell(maitake_sync::WaitCell);

/// Relies on `maitake_sync::WaitCell::new`: returns a cell with no waker
/// stored in it.
#[verifier::external_body]
fn wait_cell_new() -> maitake_sync::WaitCell {
    maitake_sync::WaitCell::new()
}

/// Relies on `maitake_sync::WaitCell::wake`: wakes the waker stored in the
/// cell, if any. The result says whether a waiting task was woken; nothing
/// can be promised about it, since it depends on who is waiting at the
/// moment of the call.
#[verifier::external_body]
fn wait_cell_wake(cell: &maitake_sync::WaitCell) -> bool {
    cell.wake()
}

/// The asynchronous personality for one producer and one consumer: one
/// wait cell per queue end. A suspended task registers its waker in the
/// cell (subscribe), re-checks the condition, and only then truly sleeps;
/// the wake operations here fire the stored waker.
pub struct MaiNotSpsc {
    not_empty: maitake_sync::WaitCell,
    not_full: maitake_sync::WaitCell,
}

impl MaiNotSpsc {
    /// Creates the notifier with both cells empty.
    pub fn new() -> Self {
        MaiNotSpsc { not_empty: wait_cell_new(), not_full: wait_cell_new() }
    }

    /// The cell a consumer waits on until data is committed.
    pub fn not_empty_cell(&self) -> &maitake_sync::WaitCell {
        &self.not_empty
    }

    /// The cell a producer waits on until space is released.
    pub fn not_full_cell(&self) -> &maitake_sync::WaitCell {
        &self.not_full
    }
}

impl Notifier for MaiNotSpsc {
    fn wake_one_consumer(&self) {
        let _ = wait_cell_wake(&self.not_empty);
    }

    fn wake_one_producer(&self) {
        let _ = wait_cell_wake(&self.not_full);
    }
}

} // verus!
