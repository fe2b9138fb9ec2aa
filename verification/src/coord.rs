//! The coordination engine: a single-producer, single-consumer grant /
//! commit / release state machine over a contiguous byte region of a fixed
//! capacity, with wraparound handled through a watermark.
//!
//! The engine tracks four cursors into the region:
//! - `read`: everything before it (up to the committed data) has been
//!   released back to the free pool;
//! - `write`: committed (readable) data ends here;
//! - `reserve`: space tentatively granted to the producer ends here;
//! - `last`: the watermark. When a write grant cannot fit before the
//!   physical end of the region and is taken from offset 0 instead, the
//!   watermark records where the committed data stops, so a reader knows
//!   to jump back to offset 0 once it reaches it.
//!
//! Two layouts occur. In the linear layout (`read <= write`) the readable
//! bytes are `buf[read..write]`. In the inverted layout (`write < read`,
//! after a wraparound) they are `buf[read..last]` followed by
//! `buf[0..write]`.

use vstd::prelude::*;

verus! {

use crate::Error;

/// Cursor state of the single-producer single-consumer coordination engine.
///
/// The fields are public so that contracts can speak about them, but they
/// are only meant to be changed through the five operations below; every
/// operation requires and preserves the well-formedness predicate [`Self::wf`].
pub struct SpscCoord {
    /// Data before this offset has been released (is free again).
    pub read: usize,
    /// Committed, readable data ends at this offset.
    pub write: usize,
    /// Watermark: in the inverted layout, readable data in the tail of the
    /// region ends here and the reader must wrap to offset 0.
    pub last: usize,
    /// A pending write reservation ends at this offset.
    pub reserve: usize,
    /// A write grant is outstanding.
    pub write_open: bool,
    /// Length of the outstanding write grant (0 when `!write_open`).
    pub wip_len: usize,
    /// A read grant is outstanding.
    pub read_open: bool,
    /// Length of the outstanding read grant (0 when `!read_open`).
    pub read_len: usize,
}

impl SpscCoord {
    /// The inverted layout: a wraparound has been committed and not yet
    /// fully consumed, so committed data sits both at `buf[read..last]`
    /// and at `buf[0..write]`.
    pub open spec fn inverted(self) -> bool {
        self.write < self.read
    }

    /// Cursor state of a freshly constructed queue: everything at zero.
    pub open spec fn init() -> Self {
        SpscCoord {
            read: 0,
            write: 0,
            last: 0,
            reserve: 0,
            write_open: false,
            wip_len: 0,
            read_open: false,
            read_len: 0,
        }
    }

    /// Well-formedness over a region of capacity `cap`.
    ///
    /// The outstanding write grant (if any) always occupies
    /// `[reserve - wip_len, reserve)`; the outstanding read grant (if any)
    /// occupies `[read, read + read_len)` inside the first readable span.
    pub open spec fn wf(self, cap: nat) -> bool {
        &&& self.read <= cap
        &&& self.write <= cap
        &&& self.last <= cap
        &&& self.reserve <= cap
        &&& (!self.write_open ==> self.reserve == self.write && self.wip_len == 0)
        &&& (!self.read_open ==> self.read_len == 0)
        &&& if self.inverted() {
            &&& self.read <= self.last
            &&& (self.write_open ==> self.write <= self.reserve && self.reserve < self.read
                && self.wip_len == self.reserve - self.write)
            &&& (self.read_open ==> self.read_len <= self.last - self.read)
        } else {
            &&& (self.write == cap ==> self.last == cap)
            &&& (self.write_open ==> {
                ||| (self.write <= self.reserve && self.wip_len == self.reserve - self.write)
                ||| (self.reserve < self.read && self.wip_len == self.reserve)
            })
            &&& (self.read_open ==> self.read_len <= self.write - self.read)
        }
    }

    /// First physical offset of the outstanding write grant.
    pub open spec fn wip_start(self) -> int {
        self.reserve - self.wip_len
    }

    /// Number of committed, unreleased bytes.
    pub open spec fn readable_len(self) -> int {
        if self.inverted() {
            (self.last - self.read) + self.write
        } else {
            self.write - self.read
        }
    }

    // --- grant_exact ---

    /// `grant_exact` succeeds exactly when no write grant is outstanding and
    /// `sz` contiguous bytes fit: before the physical end in the linear
    /// layout, else from offset 0 leaving the read cursor untouched, or
    /// between `write` and `read` in the inverted layout (keeping a one-byte
    /// gap so a full region is never mistaken for an empty one).
    pub open spec fn can_grant_exact(self, cap: nat, sz: usize) -> bool {
        &&& !self.write_open
        &&& if self.inverted() {
            self.write + sz < self.read
        } else {
            self.write + sz <= cap || sz < self.read
        }
    }

    /// Offset at which `grant_exact` reserves.
    pub open spec fn grant_exact_start(self, cap: nat, sz: usize) -> int {
        if self.inverted() {
            self.write as int
        } else if self.write + sz <= cap {
            self.write as int
        } else {
            0
        }
    }

    /// Cursor state after a successful `grant_exact`.
    pub open spec fn after_grant_exact(self, cap: nat, sz: usize) -> Self {
        SpscCoord {
            reserve: (self.grant_exact_start(cap, sz) + sz) as usize,
            write_open: true,
            wip_len: sz,
            ..self
        }
    }

    // --- grant_max_remaining ---

    /// Largest contiguous span currently reservable (ignoring `max`).
    pub open spec fn max_remain(self, cap: nat) -> int {
        if self.inverted() {
            self.read - self.write - 1
        } else if self.write < cap {
            cap - self.write
        } else if self.read > 0 {
            self.read - 1
        } else {
            0
        }
    }

    /// `grant_max_remaining` succeeds exactly when no write grant is
    /// outstanding and some contiguous space is reservable at all.
    pub open spec fn can_grant_max(self, cap: nat) -> bool {
        !self.write_open && self.max_remain(cap) > 0
    }

    /// Offset at which `grant_max_remaining` reserves.
    pub open spec fn grant_max_start(self, cap: nat) -> int {
        if self.inverted() || self.write < cap {
            self.write as int
        } else {
            0
        }
    }

    /// Length reserved by `grant_max_remaining(max)`.
    pub open spec fn grant_max_len(self, cap: nat, max: usize) -> int {
        if max <= self.max_remain(cap) {
            max as int
        } else {
            self.max_remain(cap)
        }
    }

    /// Cursor state after a successful `grant_max_remaining`.
    pub open spec fn after_grant_max(self, cap: nat, max: usize) -> Self {
        SpscCoord {
            reserve: (self.grant_max_start(cap) + self.grant_max_len(cap, max)) as usize,
            write_open: true,
            wip_len: self.grant_max_len(cap, max) as usize,
            ..self
        }
    }

    // --- commit ---

    /// Cursor state after `commit_inner` resolves the outstanding write
    /// grant with `used` bytes.
    ///
    /// `used == 0` is an abort: the reservation is rolled back and the
    /// state is exactly as before the grant was taken. Otherwise the
    /// commit cursor advances to the end of the used prefix, the unused
    /// remainder returns to the free pool, and the watermark is updated:
    /// a commit that lands before the old commit cursor publishes a
    /// wraparound (the watermark records where the tail data ends), and a
    /// commit that advances past the old watermark pushes it to `cap`.
    pub open spec fn after_commit(self, cap: nat, used: usize) -> Self {
        if used == 0 {
            SpscCoord { reserve: self.write, write_open: false, wip_len: 0, ..self }
        } else {
            let nw = self.wip_start() + used;
            let nl = if nw < self.write && self.write != cap {
                self.write as int
            } else if nw > self.last {
                cap as int
            } else {
                self.last as int
            };
            SpscCoord {
                write: nw as usize,
                reserve: nw as usize,
                last: nl as usize,
                write_open: false,
                wip_len: 0,
                ..self
            }
        }
    }

    // --- read ---

    /// A reader that has consumed everything up to the watermark resumes
    /// at offset 0.
    pub open spec fn normalized(self) -> Self {
        if self.read == self.last && self.write < self.read {
            SpscCoord { read: 0, ..self }
        } else {
            self
        }
    }

    /// Length of the next contiguous committed span (on a normalized state).
    pub open spec fn avail(self) -> int {
        if self.inverted() {
            self.last - self.read
        } else {
            self.write - self.read
        }
    }

    /// `read` succeeds exactly when no read grant is outstanding and some
    /// committed data is available.
    pub open spec fn can_read(self) -> bool {
        !self.read_open && self.normalized().avail() > 0
    }

    /// Cursor state after a successful `read`.
    pub open spec fn after_read(self) -> Self {
        let n = self.normalized();
        SpscCoord { read_open: true, read_len: n.avail() as usize, ..n }
    }

    // --- release ---

    /// Cursor state after `release_inner` resolves the outstanding read
    /// grant, consuming `used` bytes. `used == 0` is a "keep": the data
    /// stays available for a future `read`.
    pub open spec fn after_release(self, used: usize) -> Self {
        SpscCoord {
            read: (self.read + used) as usize,
            read_open: false,
            read_len: 0,
            ..self
        }
    }

    /// Constructs the coordination state of an empty queue.
    pub fn new() -> (c: Self)
        ensures
            c == Self::init(),
    {
        SpscCoord {
            read: 0,
            write: 0,
            last: 0,
            reserve: 0,
            write_open: false,
            wip_len: 0,
            read_open: false,
            read_len: 0,
        }
    }

    /// Reserves exactly `sz` contiguous bytes, recording a wraparound in
    /// the reservation when the span fits only from offset 0. Returns the
    /// offset of the reserved span, or `Busy` when no contiguous span of
    /// `sz` bytes is free (even if the total free space would suffice).
    pub fn grant_exact(&mut self, cap: usize, sz: usize) -> (r: Result<usize, Error>)
        requires
            old(self).wf(cap as nat),
        ensures
            final(self).wf(cap as nat),
            r is Ok <==> old(self).can_grant_exact(cap as nat, sz),
            r matches Ok(off) ==> off == old(self).grant_exact_start(cap as nat, sz)
                && *final(self) == old(self).after_grant_exact(cap as nat, sz),
            r is Err ==> *final(self) == *old(self) && r == Err::<usize, Error>(Error::Busy),
    {
        if self.write_open {
            return Err(Error::Busy);
        }
        if self.write < self.read {
            // Inverted: free space is the gap [write, read), minus one byte
            // so that a full region is never mistaken for an empty one.
            if sz < self.read - self.write {
                let start = self.write;
                self.reserve = start + sz;
                self.write_open = true;
                self.wip_len = sz;
                Ok(start)
            } else {
                Err(Error::Busy)
            }
        } else if sz <= cap - self.write {
            // Linear: the span fits before the physical end.
            let start = self.write;
            self.reserve = start + sz;
            self.write_open = true;
            self.wip_len = sz;
            Ok(start)
        } else if sz < self.read {
            // Linear, but only a span from offset 0 fits: reserve there and
            // let the commit record the watermark.
            self.reserve = sz;
            self.write_open = true;
            self.wip_len = sz;
            Ok(0)
        } else {
            Err(Error::Busy)
        }
    }

    /// Reserves the largest contiguous span of at most `max` bytes.
    /// Returns its offset and length, or `Busy` when nothing is reservable.
    pub fn grant_max_remaining(&mut self, cap: usize, max: usize) -> (r: Result<
        (usize, usize),
        Error,
    >)
        requires
            old(self).wf(cap as nat),
        ensures
            final(self).wf(cap as nat),
            r is Ok <==> old(self).can_grant_max(cap as nat),
            r matches Ok(p) ==> p.0 == old(self).grant_max_start(cap as nat)
                && p.1 == old(self).grant_max_len(cap as nat, max)
                && *final(self) == old(self).after_grant_max(cap as nat, max),
            r is Err ==> *final(self) == *old(self) && r == Err::<(usize, usize), Error>(
                Error::Busy,
            ),
    {
        if self.write_open {
            return Err(Error::Busy);
        }
        if self.write < self.read {
            // Inverted: at most the gap minus the one-byte separator.
            let remain = self.read - self.write - 1;
            if remain == 0 {
                return Err(Error::Busy);
            }
            let len = if max <= remain {
                max
            } else {
                remain
            };
            let start = self.write;
            self.reserve = start + len;
            self.write_open = true;
            self.wip_len = len;
            Ok((start, len))
        } else if self.write < cap {
            // Linear: whatever is left before the physical end.
            let remain = cap - self.write;
            let len = if max <= remain {
                max
            } else {
                remain
            };
            let start = self.write;
            self.reserve = start + len;
            self.write_open = true;
            self.wip_len = len;
            Ok((start, len))
        } else {
            // Nothing before the end; take space from offset 0.
            if self.read == 0 {
                return Err(Error::Busy);
            }
            let remain = self.read - 1;
            if remain == 0 {
                return Err(Error::Busy);
            }
            let len = if max <= remain {
                max
            } else {
                remain
            };
            self.reserve = len;
            self.write_open = true;
            self.wip_len = len;
            Ok((0, len))
        }
    }

    /// Finalizes the outstanding write grant of `grant_len` bytes with
    /// `used` bytes. `used == 0` rolls the reservation back entirely;
    /// otherwise the used prefix becomes readable and the remainder
    /// returns to the free pool.
    pub fn commit_inner(&mut self, cap: usize, grant_len: usize, used: usize)
        requires
            old(self).wf(cap as nat),
            old(self).write_open,
            grant_len == old(self).wip_len,
            used <= grant_len,
        ensures
            final(self).wf(cap as nat),
            *final(self) == old(self).after_commit(cap as nat, used),
    {
        if used == 0 {
            self.reserve = self.write;
            self.write_open = false;
            self.wip_len = 0;
        } else {
            let start = self.reserve - self.wip_len;
            let nw = start + used;
            if nw < self.write && self.write != cap {
                self.last = self.write;
            } else if nw > self.last {
                self.last = cap;
            }
            self.write = nw;
            self.reserve = nw;
            self.write_open = false;
            self.wip_len = 0;
        }
    }

    /// Returns the offset and length of the next contiguous committed
    /// span, or `Busy` when a read grant is outstanding or no committed
    /// data is available. A reader standing at the watermark resumes at
    /// offset 0 first.
    pub fn read(&mut self, cap: usize) -> (r: Result<(usize, usize), Error>)
        requires
            old(self).wf(cap as nat),
        ensures
            final(self).wf(cap as nat),
            r is Ok <==> old(self).can_read(),
            r matches Ok(p) ==> p.0 == old(self).normalized().read
                && p.1 == old(self).normalized().avail()
                && *final(self) == old(self).after_read(),
            r is Err ==> r == Err::<(usize, usize), Error>(Error::Busy)
                && *final(self) == (if old(self).read_open {
                *old(self)
            } else {
                old(self).normalized()
            }),
    {
        if self.read_open {
            return Err(Error::Busy);
        }
        if self.read == self.last && self.write < self.read {
            self.read = 0;
        }
        let avail = if self.write < self.read {
            self.last - self.read
        } else {
            self.write - self.read
        };
        if avail == 0 {
            Err(Error::Busy)
        } else {
            self.read_open = true;
            self.read_len = avail;
            Ok((self.read, avail))
        }
    }

    /// Finalizes the outstanding read grant, consuming `used` bytes.
    /// `used == 0` keeps the data available for a future `read`.
    pub fn release_inner(&mut self, cap: usize, used: usize)
        requires
            old(self).wf(cap as nat),
            old(self).read_open,
            used <= old(self).read_len,
        ensures
            final(self).wf(cap as nat),
            *final(self) == old(self).after_release(used),
    {
        self.read = self.read + used;
        self.read_open = false;
        self.read_len = 0;
    }
}

/// The committed, unreleased bytes of a region `buf` under cursor state `c`,
/// in the order a consumer will obtain them: in the inverted layout the tail
/// span up to the watermark comes first, then the span from offset 0.
pub open spec fn readable_of(buf: Seq<u8>, c: SpscCoord) -> Seq<u8> {
    if c.inverted() {
        buf.subrange(c.read as int, c.last as int) + buf.subrange(0, c.write as int)
    } else {
        buf.subrange(c.read as int, c.write as int)
    }
}

/// Normalizing the read cursor (jumping from the watermark back to offset 0)
/// does not change the readable content.
pub proof fn lemma_readable_normalized(buf: Seq<u8>, c: SpscCoord, cap: nat)
    requires
        c.wf(cap),
        buf.len() == cap,
    ensures
        readable_of(buf, c.normalized()) == readable_of(buf, c),
        c.normalized().wf(cap),
        c.normalized().readable_len() == c.readable_len(),
{
    if c.read == c.last && c.write < c.read {
        assert(readable_of(buf, c.normalized()) =~= readable_of(buf, c));
    }
}

/// A read succeeds exactly when no read grant is outstanding and committed
/// data exists: the first contiguous span is non-empty precisely when the
/// whole readable content is.
pub proof fn lemma_can_read_iff(c: SpscCoord, cap: nat)
    requires
        c.wf(cap),
    ensures
        c.can_read() <==> !c.read_open && c.readable_len() > 0,
        forall|buf: Seq<u8>|
            buf.len() == cap ==> #[trigger] readable_of(buf, c).len() == c.readable_len(),
{
}

/// Cursor monotonicity. Renormalized against the read cursor as origin
/// (which undoes the wraparound), the commit cursor is `read` plus the
/// committed-unreleased bytes, and the reservation cursor is that plus the
/// outstanding reservation; the chain `read <= commit <= reservation <=
/// read + cap` holds in every well-formed state, and every operation
/// preserves well-formedness.
pub proof fn lemma_cursor_monotonic(c: SpscCoord, cap: nat)
    requires
        c.wf(cap),
    ensures
        c.read <= cap && c.write <= cap && c.reserve <= cap && c.last <= cap,
        c.read <= c.read + c.readable_len(),
        c.read + c.readable_len() <= c.read + c.readable_len() + c.wip_len,
        c.read + c.readable_len() + c.wip_len <= c.read + cap,
{
}

/// Non-overlap: the physical range reserved to the outstanding write grant
/// never intersects the physical range of the outstanding read grant.
/// Since every operation preserves well-formedness, this holds at every
/// point of every interleaving of producer and consumer operations.
pub proof fn lemma_grant_regions_disjoint(c: SpscCoord, cap: nat)
    requires
        c.wf(cap),
        c.write_open,
        c.read_open,
    ensures
        c.reserve <= c.read || c.read + c.read_len <= c.wip_start(),
{
}

/// The write-reserved range also never intersects the committed (readable)
/// bytes, so filling a write grant leaves the readable content untouched.
pub proof fn lemma_write_preserves_readable(buf: Seq<u8>, c: SpscCoord, cap: nat, i: int, b: u8)
    requires
        c.wf(cap),
        c.write_open,
        buf.len() == cap,
        c.wip_start() <= i < c.reserve,
    ensures
        readable_of(buf.update(i, b), c) == readable_of(buf, c),
{
    assert(readable_of(buf.update(i, b), c) =~= readable_of(buf, c));
}

/// Committing `used > 0` bytes appends exactly the used prefix of the
/// granted region to the readable content.
pub proof fn lemma_commit_appends(buf: Seq<u8>, c: SpscCoord, cap: nat, used: usize)
    requires
        c.wf(cap),
        c.write_open,
        buf.len() == cap,
        0 < used <= c.wip_len,
    ensures
        readable_of(buf, c.after_commit(cap, used)) == readable_of(buf, c) + buf.subrange(
            c.wip_start(),
            c.wip_start() + used,
        ),
{
    let c2 = c.after_commit(cap, used);
    assert(readable_of(buf, c2) =~= readable_of(buf, c) + buf.subrange(
        c.wip_start(),
        c.wip_start() + used,
    ));
}

/// Committing zero bytes (an abort) restores the cursor state exactly, so
/// both the readable content and the free space are as before the grant.
pub proof fn lemma_abort_restores(c: SpscCoord, cap: nat, sz: usize)
    requires
        c.wf(cap),
        c.can_grant_exact(cap, sz),
    ensures
        c.after_grant_exact(cap, sz).after_commit(cap, 0) == c,
{
}

/// The same, for a grant taken with `grant_max_remaining`.
pub proof fn lemma_abort_restores_max(c: SpscCoord, cap: nat, max: usize)
    requires
        c.wf(cap),
        c.can_grant_max(cap),
    ensures
        c.after_grant_max(cap, max).after_commit(cap, 0) == c,
{
}

/// A `read` hands out exactly the first contiguous span of the readable
/// content, and does not change that content.
pub proof fn lemma_read_prefix(buf: Seq<u8>, c: SpscCoord, cap: nat)
    requires
        c.wf(cap),
        c.can_read(),
        buf.len() == cap,
    ensures
        c.after_read().wf(cap),
        readable_of(buf, c.after_read()) == readable_of(buf, c),
        ({
            let n = c.normalized();
            buf.subrange(n.read as int, n.read + n.avail()) == readable_of(buf, c).take(n.avail())
        }),
{
    let n = c.normalized();
    lemma_readable_normalized(buf, c, cap);
    assert(readable_of(buf, c.after_read()) =~= readable_of(buf, n));
    assert(buf.subrange(n.read as int, n.read + n.avail()) =~= readable_of(buf, n).take(n.avail()));
}

/// Releasing `used` bytes consumes exactly the first `used` bytes of the
/// readable content.
pub proof fn lemma_release_skips(buf: Seq<u8>, c: SpscCoord, cap: nat, used: usize)
    requires
        c.wf(cap),
        c.read_open,
        buf.len() == cap,
        used <= c.read_len,
    ensures
        readable_of(buf, c.after_release(used)) == readable_of(buf, c).skip(used as int),
{
    assert(readable_of(buf, c.after_release(used)) =~= readable_of(buf, c).skip(used as int));
}

/// Keep idempotence: taking a read grant and releasing zero bytes leaves
/// the cursor state as it was (up to watermark normalization), and the
/// readable content exactly as it was.
pub proof fn lemma_keep_restores(buf: Seq<u8>, c: SpscCoord, cap: nat)
    requires
        c.wf(cap),
        c.can_read(),
        buf.len() == cap,
    ensures
        c.after_read().after_release(0) == c.normalized(),
        readable_of(buf, c.after_read().after_release(0)) == readable_of(buf, c),
{
    lemma_readable_normalized(buf, c, cap);
}

} // verus!
