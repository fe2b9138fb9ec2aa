//! A common handle trait over the ways of holding a queue, so that code
//! generic over the ownership style can still obtain producer and
//! consumer handles.

use vstd::prelude::*;

verus! {

use crate::framed::{FramedConsumer, FramedProducer};
use crate::notifier::Notifier;
use crate::queue::{ArcBBQueue, BBQueue};
use crate::storage::Storage;
use crate::stream::{StreamConsumer, StreamProducer};

/// Anything that stands for a queue and can hand out its producer and
/// consumer handles.
pub trait BbqHandle {
    /// Hands out the streaming producer handle.
    fn stream_producer(&self) -> StreamProducer;

    /// Hands out the streaming consumer handle.
    fn stream_consumer(&self) -> StreamConsumer;

    /// Hands out the framed producer handle.
    fn framed_producer(&self) -> FramedProducer;

    /// Hands out the framed consumer handle.
    fn framed_consumer(&self) -> FramedConsumer;
}

impl<S: Storage, N: Notifier> BbqHandle for BBQueue<S, N> {
    fn stream_producer(&self) -> StreamProducer {
        StreamProducer
    }

    fn stream_consumer(&self) -> StreamConsumer {
        StreamConsumer
    }

    fn framed_producer(&self) -> FramedProducer {
        FramedProducer
    }

    fn framed_consumer(&self) -> FramedConsumer {
        FramedConsumer
    }
}

impl<S: Storage, N: Notifier> BbqHandle for ArcBBQueue<S, N> {
    fn stream_producer(&self) -> StreamProducer {
        StreamProducer
    }

    fn stream_consumer(&self) -> StreamConsumer {
        StreamConsumer
    }

    fn framed_producer(&self) -> FramedProducer {
        FramedProducer
    }

    fn framed_consumer(&self) -> FramedConsumer {
        FramedConsumer
    }
}

} // verus!
