//! The queue: a storage region, the coordination engine over it, and a
//! notifier, composed at construction time.

use vstd::prelude::*;

verus! {

use crate::coord::{SpscCoord, readable_of};
use crate::notifier::Notifier;
use crate::storage::Storage;

/// A bounded single-producer single-consumer byte queue.
///
/// The storage strategy `S` supplies the byte region, the notifier
/// strategy `N` the wake-up mechanism; the coordination engine tracks the
/// cursors. The fields are public so that contracts can speak about them;
/// they are only meant to be changed through the producer, consumer and
/// grant operations.
pub struct BBQueue<S: Storage, N: Notifier> {
    /// The byte region backing the ring.
    pub sto: S,
    /// The grant/commit/release cursor state.
    pub cor: SpscCoord,
    /// The wake-up mechanism.
    pub not: N,
}

impl<S: Storage, N: Notifier> BBQueue<S, N> {
    /// Capacity of the ring.
    pub open spec fn cap(self) -> nat {
        self.sto.contents().len()
    }

    /// The queue's cursors are well-formed for its capacity.
    pub open spec fn wf(self) -> bool {
        self.cor.wf(self.cap())
    }

    /// The committed, unreleased bytes, in the order a consumer will
    /// obtain them.
    pub open spec fn readable(self) -> Seq<u8> {
        readable_of(self.sto.contents(), self.cor)
    }

    /// Creates an empty queue over the given storage and notifier.
    pub fn new(sto: S, not: N) -> (q: Self)
        ensures
            q.wf(),
            q.readable() == Seq::<u8>::empty(),
            q.cor == SpscCoord::init(),
            q.sto == sto,
            q.not == not,
    {
        let q = BBQueue { sto, cor: SpscCoord::new(), not };
        proof {
            assert(q.readable() =~= Seq::<u8>::empty());
        }
        q
    }
}

/// A queue behind a shared-ownership handle, for callers that want to pass
/// the queue around by reference counting rather than by borrow.
pub struct ArcBBQueue<S: Storage, N: Notifier>(pub std::sync::Arc<BBQueue<S, N>>);

impl<S: Storage, N: Notifier> ArcBBQueue<S, N> {
    /// Creates an empty shared queue over the given storage and notifier.
    pub fn new(sto: S, not: N) -> (q: Self)
        ensures
            q.0.wf(),
            q.0.readable() == Seq::<u8>::empty(),
    {
        ArcBBQueue(std::sync::Arc::new(BBQueue::new(sto, not)))
    }

    /// Hands out the streaming producer handle.
    pub fn stream_producer(&self) -> crate::stream::StreamProducer {
        crate::stream::StreamProducer
    }

    /// Hands out the streaming consumer handle.
    pub fn stream_consumer(&self) -> crate::stream::StreamConsumer {
        crate::stream::StreamConsumer
    }

    /// Hands out the framed producer handle.
    pub fn framed_producer(&self) -> crate::framed::FramedProducer {
        crate::framed::FramedProducer
    }

    /// Hands out the framed consumer handle.
    pub fn framed_consumer(&self) -> crate::framed::FramedConsumer {
        crate::framed::FramedConsumer
    }
}

} // verus!
