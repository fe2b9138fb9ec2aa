//! A bounded single-producer, single-consumer byte queue ("bbqueue") with
//! grant/commit/release semantics, wraparound handling via a watermark, and
//! framed (length-prefixed) convenience layers.

use vstd::prelude::*;

pub mod bbqhdl;
pub mod coord;
pub mod framed;
pub mod laws;
pub mod notifier;
pub mod queue;
pub mod storage;
pub mod stream;

verus! {

/// Errors surfaced by queue operations. All are recoverable.
#[derive(Clone, Copy, Debug, PartialEq, Eq, Structural)]
pub enum Error {
    /// Insufficient contiguous space (write side) or no committed data
    /// (read side); the caller may retry later.
    Busy,
    /// A framed read found a committed span too short to contain a valid
    /// header plus body; the span was released with zero bytes consumed.
    MalformedFrame,
}

} // verus!
