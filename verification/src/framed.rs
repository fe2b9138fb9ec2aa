//! The framed producer/consumer layer: each message is prefixed with a
//! fixed-width little-endian length header, so arbitrary-sized records can
//! be delimited within the byte stream.
//!
//! The header is written at commit time with the finally committed length
//! (the caller may commit fewer bytes than it reserved). On read, the
//! header is parsed first; a committed span too short to contain a valid
//! header plus body is reported as [`Error::MalformedFrame`] and released
//! with zero bytes consumed, so the read cursor never advances past
//! un-validated data.

use vstd::prelude::*;

verus! {

use crate::Error;
use crate::coord::{lemma_commit_appends, lemma_keep_restores, lemma_read_prefix,
    lemma_readable_normalized, lemma_release_skips, lemma_write_preserves_readable};
use crate::notifier::Notifier;
use crate::queue::BBQueue;
use crate::storage::Storage;

/// Width in bytes of the frame length header.
pub const FRAME_HDR_LEN: usize = 2;

/// The little-endian encoding of `n` in `w` bytes: lowest byte first.
pub open spec fn le_bytes_of(n: nat, w: nat) -> Seq<u8>
    decreases w,
{
    if w == 0 {
        Seq::<u8>::empty()
    } else {
        seq![(n % 256) as u8] + le_bytes_of(n / 256, (w - 1) as nat)
    }
}

/// The value of a little-endian byte string: lowest byte first.
pub open spec fn le_value_of(s: Seq<u8>) -> nat
    decreases s.len(),
{
    if s.len() == 0 {
        0
    } else {
        (s[0] + 256 * le_value_of(s.skip(1))) as nat
    }
}

/// The two-byte encoding written out: low byte, then high byte.
pub proof fn lemma_le2_bytes(n: nat)
    requires
        n < 65536,
    ensures
        le_bytes_of(n, 2) == seq![(n % 256) as u8, (n / 256) as u8],
{
    reveal_with_fuel(le_bytes_of, 3);
    assert(n / 256 < 256);
    assert(le_bytes_of(n, 2) =~= seq![(n % 256) as u8, ((n / 256) % 256) as u8]);
}

/// The value of a two-byte string written out.
pub proof fn lemma_le2_value(lo: u8, hi: u8)
    ensures
        le_value_of(seq![lo, hi]) == lo + 256 * hi,
{
    reveal_with_fuel(le_value_of, 3);
    let s = seq![lo, hi];
    assert(s.skip(1) =~= seq![hi]);
    assert(s.skip(1).skip(1) =~= Seq::<u8>::empty());
}

/// Round trip of the two-byte header encoding.
pub proof fn lemma_le2_round_trip(n: nat)
    requires
        n < 65536,
    ensures
        le_bytes_of(n, 2).len() == 2,
        le_value_of(le_bytes_of(n, 2)) == n,
{
    lemma_le2_bytes(n);
    lemma_le2_value((n % 256) as u8, (n / 256) as u8);
    assert(n % 256 + 256 * (n / 256) == n) by (nonlinear_arith)
        requires
            n >= 0,
    ;
}

/// Cutting low bytes off a little-endian byte string never increases its
/// value.
pub proof fn lemma_le_value_skip_le(s: Seq<u8>, j: int)
    requires
        0 <= j <= s.len(),
    ensures
        le_value_of(s.skip(j)) <= le_value_of(s),
    decreases j,
{
    if j > 0 {
        assert(s.skip(j) =~= s.skip(1).skip(j - 1));
        lemma_le_value_skip_le(s.skip(1), j - 1);
        assert(le_value_of(s) == s[0] + 256 * le_value_of(s.skip(1)));
        assert(le_value_of(s.skip(1)) <= 256 * le_value_of(s.skip(1))) by (nonlinear_arith);
    } else {
        assert(s.skip(0) =~= s);
    }
}

/// The value of a two-byte string always fits a 16-bit header.
pub proof fn lemma_le2_value_bound(s: Seq<u8>)
    requires
        s.len() == 2,
    ensures
        le_value_of(s) < 65536,
{
    assert(s =~= seq![s[0], s[1]]);
    lemma_le2_value(s[0], s[1]);
}

/// A length header type for the framed wire format: a fixed-width unsigned
/// integer, written little-endian, unaligned, directly before each frame
/// body.
pub trait LenHeader: Copy + Sized {
    /// Width in bytes of this header type on the wire.
    spec fn width() -> nat;

    /// The length value the header carries.
    spec fn value_of(self) -> nat;

    /// Largest value the header type can carry.
    spec fn max_value() -> nat;

    /// Width in bytes, as a run-time value.
    fn width_exec() -> (n: usize)
        ensures
            n == Self::width(),
            0 < n,
    ;

    /// The carried value, as a `usize`.
    fn to_usize(self) -> (n: usize)
        ensures
            n == self.value_of(),
    ;

    /// The little-endian encoding, lowest byte first.
    fn to_le_bytes(&self) -> (v: Vec<u8>)
        ensures
            v@ == le_bytes_of(self.value_of(), Self::width()),
    ;

    /// Decodes a header from a little-endian byte string of the right
    /// width whose value the header type can carry.
    fn from_le_bytes(by: &[u8]) -> (h: Self)
        requires
            by@.len() == Self::width(),
            le_value_of(by@) <= Self::max_value(),
        ensures
            h.value_of() == le_value_of(by@),
    ;
}

impl LenHeader for u16 {
    open spec fn width() -> nat {
        2
    }

    open spec fn value_of(self) -> nat {
        self as nat
    }

    open spec fn max_value() -> nat {
        65535
    }

    fn width_exec() -> (n: usize) {
        2
    }

    fn to_usize(self) -> (n: usize) {
        self as usize
    }

    fn to_le_bytes(&self) -> (v: Vec<u8>) {
        let lo: u8 = (*self % 256) as u8;
        let hi: u8 = (*self / 256) as u8;
        let mut v: Vec<u8> = Vec::new();
        v.push(lo);
        v.push(hi);
        proof {
            lemma_le2_bytes(*self as nat);
            assert(v@ =~= le_bytes_of(self.value_of(), 2));
        }
        v
    }

    fn from_le_bytes(by: &[u8]) -> (h: Self) {
        let lo = by[0];
        let hi = by[1];
        proof {
            assert(by@ =~= seq![lo, hi]);
            lemma_le2_value(lo, hi);
        }
        lo as u16 + 256 * (hi as u16)
    }
}

impl LenHeader for usize {
    open spec fn width() -> nat {
        8
    }

    open spec fn value_of(self) -> nat {
        self as nat
    }

    open spec fn max_value() -> nat {
        usize::MAX as nat
    }

    fn width_exec() -> (n: usize) {
        8
    }

    fn to_usize(self) -> (n: usize) {
        self
    }

    fn to_le_bytes(&self) -> (v: Vec<u8>) {
        let mut v: Vec<u8> = Vec::new();
        let mut x: usize = *self;
        let mut i: usize = 0;
        while i < 8
            invariant
                i <= 8,
                v@.len() == i,
                le_bytes_of(*self as nat, 8) == v@ + le_bytes_of(x as nat, (8 - i) as nat),
            decreases 8 - i,
        {
            let b: u8 = (x % 256) as u8;
            proof {
                assert(le_bytes_of(x as nat, (8 - i) as nat) == seq![b] + le_bytes_of(
                    (x as nat) / 256,
                    (8 - i - 1) as nat,
                ));
                assert(v@ + (seq![b] + le_bytes_of((x as nat) / 256, (8 - i - 1) as nat)) =~= (v@
                    + seq![b]) + le_bytes_of((x as nat) / 256, (8 - i - 1) as nat));
            }
            v.push(b);
            x = x / 256;
            i = i + 1;
        }
        proof {
            assert(v@ + le_bytes_of(x as nat, 0) =~= v@);
        }
        v
    }

    fn from_le_bytes(by: &[u8]) -> (h: Self) {
        let mut acc: usize = 0;
        let mut i: usize = 8;
        while i > 0
            invariant
                i <= 8,
                by@.len() == 8,
                le_value_of(by@) <= usize::MAX,
                acc as nat == le_value_of(by@.skip(i as int)),
            decreases i,
        {
            proof {
                assert(by@.skip(i - 1).skip(1) =~= by@.skip(i as int));
                assert(le_value_of(by@.skip(i - 1)) == by@[i - 1] + 256 * le_value_of(
                    by@.skip(i as int),
                ));
                lemma_le_value_skip_le(by@, i - 1);
            }
            acc = acc * 256 + (by[i - 1] as usize);
            i = i - 1;
        }
        proof {
            assert(by@.skip(0) =~= by@);
        }
        acc
    }
}

/// A committed span starts with a well-formed frame: it is long enough for
/// the header, and the header's value fits in the rest of the span.
pub open spec fn frame_ok(span: Seq<u8>) -> bool {
    span.len() >= FRAME_HDR_LEN && le_value_of(span.subrange(0, FRAME_HDR_LEN as int))
        + FRAME_HDR_LEN <= span.len()
}

/// The body of the frame at the front of a committed span.
pub open spec fn frame_body(span: Seq<u8>) -> Seq<u8> {
    span.subrange(
        FRAME_HDR_LEN as int,
        FRAME_HDR_LEN + le_value_of(span.subrange(0, FRAME_HDR_LEN as int)),
    )
}

/// Producer handle for framed writes. The handle carries no state; the
/// cursor state lives in the queue it is used with.
pub struct FramedProducer;

/// Consumer handle for framed reads.
pub struct FramedConsumer;

/// A framed write grant: exclusive access to a window of `hdr` body bytes
/// plus room for the header, pending a commit that writes the header.
pub struct FramedGrantW {
    /// First offset of the granted window (where the header will go).
    pub offset: usize,
    /// Number of body bytes reserved.
    pub hdr: u16,
}

/// A framed read grant: access to the parsed body of the frame at the
/// front of the committed span, pending a release.
pub struct FramedGrantR {
    /// First offset of the body (the header sits just before it).
    pub offset: usize,
    /// Length of the body, as parsed from the header.
    pub body_len: usize,
}

impl<S: Storage, N: Notifier> BBQueue<S, N> {
    /// `g` is the framed write grant currently outstanding on this queue.
    pub open spec fn valid_framed_write_grant(self, g: FramedGrantW) -> bool {
        &&& self.cor.write_open
        &&& self.cor.wip_len == g.hdr + FRAME_HDR_LEN
        &&& g.offset == self.cor.wip_start()
    }

    /// `g` is the framed read grant currently outstanding on this queue.
    pub open spec fn valid_framed_read_grant(self, g: FramedGrantR) -> bool {
        &&& self.cor.read_open
        &&& g.offset == self.cor.read + FRAME_HDR_LEN
        &&& g.body_len + FRAME_HDR_LEN <= self.cor.read_len
    }

    /// Hands out the framed producer handle.
    pub fn framed_producer(&self) -> FramedProducer {
        FramedProducer
    }

    /// Hands out the framed consumer handle.
    pub fn framed_consumer(&self) -> FramedConsumer {
        FramedConsumer
    }
}

impl FramedProducer {
    /// Reserves room for a frame with a body of exactly `sz` bytes (plus
    /// the header), or fails with `Busy` as `grant_exact` does. The
    /// readable content is untouched.
    pub fn grant<S: Storage, N: Notifier>(&self, q: &mut BBQueue<S, N>, sz: u16) -> (r: Result<
        FramedGrantW,
        Error,
    >)
        requires
            old(q).wf(),
        ensures
            final(q).wf(),
            final(q).sto == old(q).sto,
            final(q).not == old(q).not,
            final(q).readable() == old(q).readable(),
            r is Ok <==> old(q).cor.can_grant_exact(
                old(q).cap(),
                (sz + FRAME_HDR_LEN) as usize,
            ),
            r matches Ok(g) ==> g.hdr == sz && final(q).cor == old(q).cor.after_grant_exact(
                old(q).cap(),
                (sz + FRAME_HDR_LEN) as usize,
            ) && final(q).valid_framed_write_grant(g),
            r is Err ==> *final(q) == *old(q) && r == Err::<FramedGrantW, Error>(Error::Busy),
    {
        let cap = q.sto.capacity();
        let needed = sz as usize + FRAME_HDR_LEN;
        match q.cor.grant_exact(cap, needed) {
            Ok(off) => Ok(FramedGrantW { offset: off, hdr: sz }),
            Err(e) => Err(e),
        }
    }
}

impl FramedGrantW {
    /// Writes one byte at index `i` of the frame body. The committed
    /// (readable) content is untouched.
    pub fn write_byte<S: Storage, N: Notifier>(&self, q: &mut BBQueue<S, N>, i: usize, b: u8)
        requires
            old(q).wf(),
            old(q).valid_framed_write_grant(*self),
            i < self.hdr,
        ensures
            final(q).wf(),
            final(q).cor == old(q).cor,
            final(q).not == old(q).not,
            final(q).sto.contents() == old(q).sto.contents().update(
                self.offset + FRAME_HDR_LEN + i,
                b,
            ),
            final(q).readable() == old(q).readable(),
            final(q).valid_framed_write_grant(*self),
    {
        proof {
            lemma_write_preserves_readable(
                old(q).sto.contents(),
                old(q).cor,
                old(q).cap(),
                self.offset + FRAME_HDR_LEN + i,
                b,
            );
        }
        q.sto.write_byte(self.offset + FRAME_HDR_LEN + i, b);
    }

    /// Copies `data` to the front of the frame body. The committed
    /// (readable) content is untouched.
    pub fn fill<S: Storage, N: Notifier>(&self, q: &mut BBQueue<S, N>, data: &[u8])
        requires
            old(q).wf(),
            old(q).valid_framed_write_grant(*self),
            data@.len() <= self.hdr,
        ensures
            final(q).wf(),
            final(q).cor == old(q).cor,
            final(q).not == old(q).not,
            final(q).readable() == old(q).readable(),
            final(q).valid_framed_write_grant(*self),
            final(q).sto.contents().len() == old(q).sto.contents().len(),
            final(q).sto.contents().subrange(
                self.offset + FRAME_HDR_LEN,
                self.offset + FRAME_HDR_LEN + data@.len(),
            ) == data@,
            forall|j: int|
                0 <= j < old(q).sto.contents().len() && !(self.offset + FRAME_HDR_LEN <= j
                    < self.offset + FRAME_HDR_LEN + data@.len()) ==> final(q).sto.contents()[j]
                    == old(q).sto.contents()[j],
    {
        let n = data.len();
        let mut i: usize = 0;
        while i < n
            invariant
                q.wf(),
                q.cor == old(q).cor,
                q.not == old(q).not,
                q.readable() == old(q).readable(),
                q.valid_framed_write_grant(*self),
                i <= n,
                n == data@.len() <= self.hdr,
                q.sto.contents().len() == old(q).sto.contents().len(),
                q.sto.contents().subrange(
                    self.offset + FRAME_HDR_LEN,
                    self.offset + FRAME_HDR_LEN + i,
                ) == data@.take(i as int),
                forall|j: int|
                    0 <= j < old(q).sto.contents().len() && !(self.offset + FRAME_HDR_LEN <= j
                        < self.offset + FRAME_HDR_LEN + i) ==> q.sto.contents()[j] == old(q).sto.contents()[j],
            decreases n - i,
        {
            let b = data[i];
            self.write_byte(q, i, b);
            proof {
                assert(q.sto.contents().subrange(
                    self.offset + FRAME_HDR_LEN,
                    self.offset + FRAME_HDR_LEN + i + 1,
                ) =~= data@.take(i + 1));
            }
            i = i + 1;
        }
        proof {
            assert(q.sto.contents().subrange(
                self.offset + FRAME_HDR_LEN,
                self.offset + FRAME_HDR_LEN + data@.len(),
            ) =~= data@);
        }
    }

    /// Commits the frame: writes the header with `used` (clamped to the
    /// reserved body length), publishes header plus that many body bytes,
    /// and returns the rest of the reservation to the free pool. One
    /// consumer is woken: a frame (possibly empty) is always published.
    pub fn commit<S: Storage, N: Notifier>(self, q: &mut BBQueue<S, N>, used: u16)
        requires
            old(q).wf(),
            old(q).valid_framed_write_grant(self),
        ensures
            final(q).wf(),
            final(q).not == old(q).not,
            ({
                let u: u16 = if used <= self.hdr {
                    used
                } else {
                    self.hdr
                };
                &&& final(q).cor == old(q).cor.after_commit(
                    old(q).cap(),
                    (u + FRAME_HDR_LEN) as usize,
                )
                &&& final(q).readable() == old(q).readable() + le_bytes_of(u as nat, 2) + old(q).sto.contents().subrange(
                    self.offset + FRAME_HDR_LEN,
                    self.offset + FRAME_HDR_LEN + u,
                )
            }),
    {
        let ghost c0 = q.sto.contents();
        let cap = q.sto.capacity();
        let clamp: u16 = if used <= self.hdr {
            used
        } else {
            self.hdr
        };
        let lo: u8 = (clamp % 256) as u8;
        let hi: u8 = (clamp / 256) as u8;
        proof {
            lemma_write_preserves_readable(
                q.sto.contents(),
                q.cor,
                q.cap(),
                self.offset as int,
                lo,
            );
        }
        q.sto.write_byte(self.offset, lo);
        proof {
            lemma_write_preserves_readable(
                q.sto.contents(),
                q.cor,
                q.cap(),
                self.offset + 1,
                hi,
            );
        }
        q.sto.write_byte(self.offset + 1, hi);
        let used_len = clamp as usize + FRAME_HDR_LEN;
        proof {
            lemma_commit_appends(q.sto.contents(), q.cor, q.cap(), used_len);
            lemma_le2_bytes(clamp as nat);
            assert(le_bytes_of(clamp as nat, 2) =~= seq![lo, hi]);
            assert(q.sto.contents().subrange(self.offset as int, self.offset + used_len)
                =~= le_bytes_of(clamp as nat, 2) + c0.subrange(
                self.offset + FRAME_HDR_LEN,
                self.offset + FRAME_HDR_LEN + clamp,
            ));
        }
        q.cor.commit_inner(cap, self.hdr as usize + FRAME_HDR_LEN, used_len);
        q.not.wake_one_consumer();
    }

    /// Aborts the frame: the reservation is rolled back entirely, the
    /// queue's readable content and free space are as before the grant
    /// was taken, and nobody is woken.
    pub fn abort<S: Storage, N: Notifier>(self, q: &mut BBQueue<S, N>)
        requires
            old(q).wf(),
            old(q).valid_framed_write_grant(self),
        ensures
            final(q).wf(),
            final(q).not == old(q).not,
            final(q).sto == old(q).sto,
            final(q).cor == old(q).cor.after_commit(old(q).cap(), 0),
            final(q).readable() == old(q).readable(),
    {
        let cap = q.sto.capacity();
        q.cor.commit_inner(cap, self.hdr as usize + FRAME_HDR_LEN, 0);
    }
}

impl FramedConsumer {
    /// Parses the frame at the front of the next committed span.
    ///
    /// Fails with `Busy` when a read grant is outstanding or no committed
    /// data is available. Fails with `MalformedFrame` when the span is too
    /// short for a header, or the header implies a body longer than the
    /// span; the span is then released with zero bytes consumed, so the
    /// readable content is unchanged. On success the grant gives the
    /// frame's body: the header's value and that many bytes after it.
    pub fn read<S: Storage, N: Notifier>(&self, q: &mut BBQueue<S, N>) -> (r: Result<
        FramedGrantR,
        Error,
    >)
        requires
            old(q).wf(),
        ensures
            final(q).wf(),
            final(q).sto == old(q).sto,
            final(q).not == old(q).not,
            final(q).readable() == old(q).readable(),
            ({
                let c = old(q).cor;
                let span = old(q).readable().take(c.normalized().avail());
                &&& (c.can_read() <==> !c.read_open && old(q).readable().len() > 0)
                &&& (r is Ok <==> c.can_read() && frame_ok(span))
                &&& (r matches Ok(g) ==> g.body_len == le_value_of(
                    span.subrange(0, FRAME_HDR_LEN as int),
                ) && final(q).cor == c.after_read() && final(q).valid_framed_read_grant(g) && final(q).readable().subrange(
                    FRAME_HDR_LEN as int,
                    FRAME_HDR_LEN + g.body_len,
                ) == frame_body(span))
                &&& (r == Err::<FramedGrantR, Error>(Error::MalformedFrame) <==> c.can_read()
                    && !frame_ok(span))
                &&& (r is Err && c.can_read() ==> final(q).cor == c.normalized())
                &&& (r == Err::<FramedGrantR, Error>(Error::Busy) <==> !c.can_read())
                &&& (!c.can_read() ==> final(q).cor == (if c.read_open {
                    c
                } else {
                    c.normalized()
                }))
            }),
    {
        let ghost c = q.cor;
        let ghost span = q.readable().take(c.normalized().avail());
        let cap = q.sto.capacity();
        proof {
            lemma_readable_normalized(q.sto.contents(), q.cor, q.cap());
            crate::coord::lemma_can_read_iff(q.cor, q.cap());
            if q.cor.can_read() {
                lemma_read_prefix(q.sto.contents(), q.cor, q.cap());
                lemma_keep_restores(q.sto.contents(), q.cor, q.cap());
            }
        }
        match q.cor.read(cap) {
            Err(e) => Err(e),
            Ok((off, len)) => {
                if len < FRAME_HDR_LEN {
                    q.cor.release_inner(cap, 0);
                    return Err(Error::MalformedFrame);
                }
                let lo = q.sto.read_byte(off);
                let hi = q.sto.read_byte(off + 1);
                let n: usize = lo as usize + 256 * (hi as usize);
                proof {
                    let hdr = span.subrange(0, FRAME_HDR_LEN as int);
                    assert(span[0] == lo && span[1] == hi);
                    assert(hdr =~= seq![lo, hi]);
                    lemma_le2_value(lo, hi);
                    assert(le_value_of(hdr) == n);
                }
                if n > len - FRAME_HDR_LEN {
                    q.cor.release_inner(cap, 0);
                    return Err(Error::MalformedFrame);
                }
                proof {
                    assert(q.readable().subrange(FRAME_HDR_LEN as int, FRAME_HDR_LEN + n)
                        =~= frame_body(span));
                }
                Ok(FramedGrantR { offset: off + FRAME_HDR_LEN, body_len: n })
            },
        }
    }
}

impl FramedGrantR {
    /// Reads the byte at index `i` of the frame body: byte
    /// `FRAME_HDR_LEN + i` of the queue's readable content.
    pub fn read_byte<S: Storage, N: Notifier>(&self, q: &BBQueue<S, N>, i: usize) -> (b: u8)
        requires
            q.wf(),
            q.valid_framed_read_grant(*self),
            i < self.body_len,
        ensures
            b == q.readable()[FRAME_HDR_LEN + i],
    {
        q.sto.read_byte(self.offset + i)
    }

    /// Copies the frame body out.
    pub fn to_vec<S: Storage, N: Notifier>(&self, q: &BBQueue<S, N>) -> (v: Vec<u8>)
        requires
            q.wf(),
            q.valid_framed_read_grant(*self),
        ensures
            v@ == q.readable().subrange(FRAME_HDR_LEN as int, FRAME_HDR_LEN + self.body_len),
    {
        let mut v: Vec<u8> = Vec::new();
        let mut i: usize = 0;
        while i < self.body_len
            invariant
                q.wf(),
                q.valid_framed_read_grant(*self),
                i <= self.body_len,
                v@ == q.readable().subrange(FRAME_HDR_LEN as int, FRAME_HDR_LEN + i),
            decreases self.body_len - i,
        {
            let b = self.read_byte(q, i);
            v.push(b);
            proof {
                assert(v@ =~= q.readable().subrange(FRAME_HDR_LEN as int, FRAME_HDR_LEN + i + 1));
            }
            i = i + 1;
        }
        v
    }

    /// Releases the frame: header and body leave the readable content.
    /// One producer is woken.
    pub fn release<S: Storage, N: Notifier>(self, q: &mut BBQueue<S, N>)
        requires
            old(q).wf(),
            old(q).valid_framed_read_grant(self),
        ensures
            final(q).wf(),
            final(q).sto == old(q).sto,
            final(q).not == old(q).not,
            final(q).cor == old(q).cor.after_release((self.body_len + FRAME_HDR_LEN) as usize),
            final(q).readable() == old(q).readable().skip(FRAME_HDR_LEN + self.body_len),
    {
        let cap = q.sto.capacity();
        let used = self.body_len + FRAME_HDR_LEN;
        proof {
            lemma_release_skips(q.sto.contents(), q.cor, q.cap(), used);
        }
        q.cor.release_inner(cap, used);
        q.not.wake_one_producer();
    }

    /// Keeps the frame: nothing is consumed, the data stays available for
    /// a future read, and nobody is woken.
    pub fn keep<S: Storage, N: Notifier>(self, q: &mut BBQueue<S, N>)
        requires
            old(q).wf(),
            old(q).valid_framed_read_grant(self),
        ensures
            final(q).wf(),
            final(q).sto == old(q).sto,
            final(q).not == old(q).not,
            final(q).cor == old(q).cor.after_release(0),
            final(q).readable() == old(q).readable(),
    {
        let cap = q.sto.capacity();
        proof {
            lemma_release_skips(q.sto.contents(), q.cor, q.cap(), 0);
            assert(old(q).readable().skip(0) =~= old(q).readable());
        }
        q.cor.release_inner(cap, 0);
    }
}

} // verus!
