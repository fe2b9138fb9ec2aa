//! The streaming producer/consumer layer: unframed grants over the raw
//! byte stream.
//!
//! A producer reserves a contiguous window, fills it, and commits some
//! prefix of it; a consumer obtains the next contiguous committed span,
//! reads it, and releases some prefix of it. Committing zero bytes aborts
//! the write grant; releasing zero bytes keeps the data for a later read.

use vstd::prelude::*;

verus! {

use crate::Error;
use crate::coord::{lemma_commit_appends, lemma_read_prefix, lemma_readable_normalized,
    lemma_release_skips, lemma_write_preserves_readable};
use crate::notifier::Notifier;
use crate::queue::BBQueue;
use crate::storage::Storage;

/// Producer handle for unframed writes. The handle carries no state; the
/// cursor state lives in the queue it is used with.
pub struct StreamProducer;

/// Consumer handle for unframed reads.
pub struct StreamConsumer;

/// A write grant: exclusive access to the contiguous window
/// `[offset, offset + len)` of the queue's region, pending a commit.
pub struct StreamGrantW {
    /// First offset of the granted window.
    pub offset: usize,
    /// Length of the granted window.
    pub len: usize,
}

/// A read grant: access to the contiguous committed span
/// `[offset, offset + len)` of the queue's region, pending a release.
pub struct StreamGrantR {
    /// First offset of the span.
    pub offset: usize,
    /// Length of the span.
    pub len: usize,
}

impl<S: Storage, N: Notifier> BBQueue<S, N> {
    /// `g` is the write grant currently outstanding on this queue.
    pub open spec fn valid_write_grant(self, g: StreamGrantW) -> bool {
        &&& self.cor.write_open
        &&& g.len == self.cor.wip_len
        &&& g.offset + g.len == self.cor.reserve
    }

    /// `g` is the read grant currently outstanding on this queue.
    pub open spec fn valid_read_grant(self, g: StreamGrantR) -> bool {
        &&& self.cor.read_open
        &&& g.offset == self.cor.read
        &&& g.len == self.cor.read_len
    }

    /// Hands out the streaming producer handle.
    pub fn stream_producer(&self) -> StreamProducer {
        StreamProducer
    }

    /// Hands out the streaming consumer handle.
    pub fn stream_consumer(&self) -> StreamConsumer {
        StreamConsumer
    }
}

impl StreamProducer {
    /// Reserves exactly `sz` contiguous bytes of `q`, or fails with `Busy`
    /// when a write grant is outstanding or no contiguous span of `sz`
    /// bytes is free. The readable content is untouched.
    pub fn grant_exact<S: Storage, N: Notifier>(
        &self,
        q: &mut BBQueue<S, N>,
        sz: usize,
    ) -> (r: Result<StreamGrantW, Error>)
        requires
            old(q).wf(),
        ensures
            final(q).wf(),
            final(q).sto == old(q).sto,
            final(q).not == old(q).not,
            final(q).readable() == old(q).readable(),
            r is Ok <==> old(q).cor.can_grant_exact(old(q).cap(), sz),
            r matches Ok(g) ==> g.len == sz && final(q).cor == old(q).cor.after_grant_exact(
                old(q).cap(),
                sz,
            ) && final(q).valid_write_grant(g),
            r is Err ==> *final(q) == *old(q) && r == Err::<StreamGrantW, Error>(Error::Busy),
    {
        let cap = q.sto.capacity();
        match q.cor.grant_exact(cap, sz) {
            Ok(off) => Ok(StreamGrantW { offset: off, len: sz }),
            Err(e) => Err(e),
        }
    }

    /// Reserves the largest contiguous span of at most `max` bytes of `q`,
    /// or fails with `Busy` when a write grant is outstanding or nothing
    /// is reservable. The readable content is untouched.
    pub fn grant_max_remaining<S: Storage, N: Notifier>(
        &self,
        q: &mut BBQueue<S, N>,
        max: usize,
    ) -> (r: Result<StreamGrantW, Error>)
        requires
            old(q).wf(),
        ensures
            final(q).wf(),
            final(q).sto == old(q).sto,
            final(q).not == old(q).not,
            final(q).readable() == old(q).readable(),
            r is Ok <==> old(q).cor.can_grant_max(old(q).cap()),
            r matches Ok(g) ==> g.len == old(q).cor.grant_max_len(old(q).cap(), max) && final(q).cor == old(q).cor.after_grant_max(old(q).cap(), max) && final(q).valid_write_grant(g),
            r is Err ==> *final(q) == *old(q) && r == Err::<StreamGrantW, Error>(Error::Busy),
    {
        let cap = q.sto.capacity();
        match q.cor.grant_max_remaining(cap, max) {
            Ok((off, len)) => Ok(StreamGrantW { offset: off, len }),
            Err(e) => Err(e),
        }
    }
}

impl StreamGrantW {
    /// Writes one byte at index `i` of the granted window. The committed
    /// (readable) content is untouched: the window never overlaps it.
    pub fn write_byte<S: Storage, N: Notifier>(
        &self,
        q: &mut BBQueue<S, N>,
        i: usize,
        b: u8,
    )
        requires
            old(q).wf(),
            old(q).valid_write_grant(*self),
            i < self.len,
        ensures
            final(q).wf(),
            final(q).cor == old(q).cor,
            final(q).not == old(q).not,
            final(q).sto.contents() == old(q).sto.contents().update(self.offset + i, b),
            final(q).readable() == old(q).readable(),
            final(q).valid_write_grant(*self),
    {
        proof {
            lemma_write_preserves_readable(
                old(q).sto.contents(),
                old(q).cor,
                old(q).cap(),
                self.offset + i,
                b,
            );
        }
        q.sto.write_byte(self.offset + i, b);
    }

    /// Copies `data` to the front of the granted window. The committed
    /// (readable) content is untouched.
    pub fn fill<S: Storage, N: Notifier>(&self, q: &mut BBQueue<S, N>, data: &[u8])
        requires
            old(q).wf(),
            old(q).valid_write_grant(*self),
            data@.len() <= self.len,
        ensures
            final(q).wf(),
            final(q).cor == old(q).cor,
            final(q).not == old(q).not,
            final(q).readable() == old(q).readable(),
            final(q).valid_write_grant(*self),
            final(q).sto.contents().len() == old(q).sto.contents().len(),
            final(q).sto.contents().subrange(
                self.offset as int,
                self.offset + data@.len(),
            ) == data@,
            forall|j: int|
                0 <= j < old(q).sto.contents().len() && !(self.offset <= j < self.offset
                    + data@.len()) ==> final(q).sto.contents()[j] == old(q).sto.contents()[j],
    {
        let n = data.len();
        let mut i: usize = 0;
        while i < n
            invariant
                q.wf(),
                q.cor == old(q).cor,
                q.not == old(q).not,
                q.readable() == old(q).readable(),
                q.valid_write_grant(*self),
                i <= n,
                n == data@.len() <= self.len,
                q.sto.contents().len() == old(q).sto.contents().len(),
                q.sto.contents().subrange(self.offset as int, self.offset + i) == data@.take(
                    i as int,
                ),
                forall|j: int|
                    0 <= j < old(q).sto.contents().len() && !(self.offset <= j < self.offset + i)
                        ==> q.sto.contents()[j] == old(q).sto.contents()[j],
            decreases n - i,
        {
            let b = data[i];
            self.write_byte(q, i, b);
            proof {
                assert(q.sto.contents().subrange(self.offset as int, self.offset + i + 1)
                    =~= data@.take(i + 1));
            }
            i = i + 1;
        }
        proof {
            assert(q.sto.contents().subrange(self.offset as int, self.offset + data@.len())
                =~= data@);
        }
    }

    /// Commits the grant: `used` bytes (clamped to the grant's length)
    /// become readable, appended to the queue's readable content; the
    /// remainder of the reservation returns to the free pool. Committing
    /// zero bytes aborts: the queue is exactly as before the grant was
    /// taken. One consumer is woken when data was published.
    pub fn commit<S: Storage, N: Notifier>(self, q: &mut BBQueue<S, N>, used: usize)
        requires
            old(q).wf(),
            old(q).valid_write_grant(self),
        ensures
            final(q).wf(),
            final(q).sto == old(q).sto,
            final(q).not == old(q).not,
            ({
                let u: usize = if used <= self.len {
                    used
                } else {
                    self.len
                };
                &&& final(q).cor == old(q).cor.after_commit(old(q).cap(), u)
                &&& (u > 0 ==> final(q).readable() == old(q).readable() + old(q).sto.contents().subrange(self.offset as int, self.offset + u))
                &&& (u == 0 ==> final(q).readable() == old(q).readable())
            }),
    {
        let cap = q.sto.capacity();
        let u = if used <= self.len {
            used
        } else {
            self.len
        };
        proof {
            if u > 0 {
                lemma_commit_appends(q.sto.contents(), q.cor, q.cap(), u);
            }
        }
        q.cor.commit_inner(cap, self.len, u);
        if u != 0 {
            q.not.wake_one_consumer();
        }
    }
}

impl StreamConsumer {
    /// Obtains the next contiguous committed span of `q` as a read grant,
    /// or fails with `Busy` when a read grant is outstanding or no
    /// committed data is available. The grant covers exactly the first
    /// contiguous span of the readable content; a reader standing at the
    /// watermark resumes at offset 0 first.
    pub fn read<S: Storage, N: Notifier>(&self, q: &mut BBQueue<S, N>) -> (r: Result<
        StreamGrantR,
        Error,
    >)
        requires
            old(q).wf(),
        ensures
            final(q).wf(),
            final(q).sto == old(q).sto,
            final(q).not == old(q).not,
            final(q).readable() == old(q).readable(),
            r is Ok <==> old(q).cor.can_read(),
            r is Ok <==> !old(q).cor.read_open && old(q).readable().len() > 0,
            r matches Ok(g) ==> final(q).cor == old(q).cor.after_read() && final(q).valid_read_grant(g) && 0 < g.len <= final(q).readable().len() && final(q).sto.contents().subrange(g.offset as int, g.offset + g.len) == final(q).readable().take(g.len as int),
            r is Err ==> r == Err::<StreamGrantR, Error>(Error::Busy) && final(q).cor == (if old(q).cor.read_open {
                old(q).cor
            } else {
                old(q).cor.normalized()
            }),
    {
        let cap = q.sto.capacity();
        proof {
            lemma_readable_normalized(q.sto.contents(), q.cor, q.cap());
            crate::coord::lemma_can_read_iff(q.cor, q.cap());
            if q.cor.can_read() {
                lemma_read_prefix(q.sto.contents(), q.cor, q.cap());
            }
        }
        match q.cor.read(cap) {
            Ok((off, len)) => Ok(StreamGrantR { offset: off, len }),
            Err(e) => Err(e),
        }
    }
}

impl StreamGrantR {
    /// Reads the byte at index `i` of the span: byte `i` of the queue's
    /// readable content.
    pub fn read_byte<S: Storage, N: Notifier>(&self, q: &BBQueue<S, N>, i: usize) -> (b: u8)
        requires
            q.wf(),
            q.valid_read_grant(*self),
            i < self.len,
        ensures
            b == q.readable()[i as int],
    {
        q.sto.read_byte(self.offset + i)
    }

    /// Copies the whole span out: the first `len` bytes of the queue's
    /// readable content.
    pub fn to_vec<S: Storage, N: Notifier>(&self, q: &BBQueue<S, N>) -> (v: Vec<u8>)
        requires
            q.wf(),
            q.valid_read_grant(*self),
        ensures
            v@ == q.readable().take(self.len as int),
    {
        let mut v: Vec<u8> = Vec::new();
        let mut i: usize = 0;
        while i < self.len
            invariant
                q.wf(),
                q.valid_read_grant(*self),
                i <= self.len,
                v@ == q.readable().take(self.len as int).take(i as int),
            decreases self.len - i,
        {
            let b = self.read_byte(q, i);
            v.push(b);
            proof {
                assert(v@ =~= q.readable().take(self.len as int).take(i + 1));
            }
            i = i + 1;
        }
        proof {
            assert(q.readable().take(self.len as int).take(self.len as int) =~= q.readable().take(
                self.len as int,
            ));
        }
        v
    }

    /// Releases the grant: `used` bytes (clamped to the span's length) are
    /// consumed and leave the readable content; releasing zero bytes keeps
    /// everything for a future read. One producer is woken when space was
    /// freed.
    pub fn release<S: Storage, N: Notifier>(self, q: &mut BBQueue<S, N>, used: usize)
        requires
            old(q).wf(),
            old(q).valid_read_grant(self),
        ensures
            final(q).wf(),
            final(q).sto == old(q).sto,
            final(q).not == old(q).not,
            ({
                let u: usize = if used <= self.len {
                    used
                } else {
                    self.len
                };
                &&& final(q).cor == old(q).cor.after_release(u)
                &&& final(q).readable() == old(q).readable().skip(u as int)
            }),
    {
        let cap = q.sto.capacity();
        let u = if used <= self.len {
            used
        } else {
            self.len
        };
        proof {
            lemma_release_skips(q.sto.contents(), q.cor, q.cap(), u);
        }
        q.cor.release_inner(cap, u);
        if u != 0 {
            q.not.wake_one_producer();
        }
    }
}

} // verus!
