//! The library's global guarantees, stated and proved over the
//! coordination model: what a consumer reads is exactly what the producer
//! committed, wraparound loses and duplicates nothing, and aborted grants
//! leave no trace.

use vstd::prelude::*;

verus! {

use crate::coord::{SpscCoord, readable_of};
use crate::framed::{frame_body, frame_ok, le_bytes_of, le_value_of, lemma_le2_round_trip};

/// Round trip: starting from an empty queue of capacity `buf.len()`,
/// reserving `b.len()` bytes succeeds, and after the producer has filled
/// the granted window with `b` (so the region `buf` holds `b` at offset 0)
/// and committed it, exactly `b` is readable; the next read hands out
/// exactly `b`, and releasing it all leaves the queue empty.
///
/// The empty sequence is left out: committing zero bytes is an abort by
/// design, so an empty write publishes nothing.
pub proof fn lemma_round_trip(buf: Seq<u8>, b: Seq<u8>)
    requires
        0 < b.len() <= buf.len() <= usize::MAX,
        buf.subrange(0, b.len() as int) == b,
    ensures
        ({
            let cap = buf.len();
            let sz = b.len() as usize;
            let c0 = SpscCoord::init();
            let c1 = c0.after_grant_exact(cap, sz);
            let c2 = c1.after_commit(cap, sz);
            let c3 = c2.after_read().after_release(sz);
            &&& c0.wf(cap)
            &&& c0.can_grant_exact(cap, sz)
            &&& c0.grant_exact_start(cap, sz) == 0
            &&& readable_of(buf, c2) == b
            &&& c2.can_read()
            &&& c2.normalized().avail() == b.len()
            &&& readable_of(buf, c2).take(c2.normalized().avail()) == b
            &&& readable_of(buf, c3) == Seq::<u8>::empty()
        }),
{
    let cap = buf.len();
    let sz = b.len() as usize;
    let c0 = SpscCoord::init();
    let c1 = c0.after_grant_exact(cap, sz);
    let c2 = c1.after_commit(cap, sz);
    let c3 = c2.after_read().after_release(sz);
    assert(readable_of(buf, c2) =~= b);
    assert(readable_of(buf, c2).take(c2.normalized().avail()) =~= b);
    assert(readable_of(buf, c3) =~= Seq::<u8>::empty());
}

/// Framed round trip: for any body length from 0 up to capacity minus the
/// header size, reserving a frame succeeds on an empty queue, and once the
/// region holds the header encoding of `b.len()` followed by `b` (as the
/// framed commit writes them), the committed frame parses back to the same
/// length and the same bytes, and releasing it leaves the queue empty.
pub proof fn lemma_framed_round_trip(buf: Seq<u8>, b: Seq<u8>)
    requires
        b.len() < 65536,
        b.len() + 2 <= buf.len() <= usize::MAX,
        buf.subrange(0, 2) == le_bytes_of(b.len() as nat, 2),
        buf.subrange(2, 2 + b.len() as int) == b,
    ensures
        ({
            let cap = buf.len();
            let needed = (b.len() + 2) as usize;
            let c0 = SpscCoord::init();
            let c1 = c0.after_grant_exact(cap, needed);
            let c2 = c1.after_commit(cap, needed);
            let span = readable_of(buf, c2).take(c2.normalized().avail());
            let c3 = c2.after_read().after_release(needed);
            &&& c0.can_grant_exact(cap, needed)
            &&& c0.grant_exact_start(cap, needed) == 0
            &&& readable_of(buf, c2) == le_bytes_of(b.len() as nat, 2) + b
            &&& c2.can_read()
            &&& frame_ok(span)
            &&& le_value_of(span.subrange(0, 2)) == b.len()
            &&& frame_body(span) == b
            &&& readable_of(buf, c3) == Seq::<u8>::empty()
        }),
{
    let cap = buf.len();
    let needed = (b.len() + 2) as usize;
    let c0 = SpscCoord::init();
    let c1 = c0.after_grant_exact(cap, needed);
    let c2 = c1.after_commit(cap, needed);
    let span = readable_of(buf, c2).take(c2.normalized().avail());
    let c3 = c2.after_read().after_release(needed);
    lemma_le2_round_trip(b.len() as nat);
    assert(readable_of(buf, c2) =~= le_bytes_of(b.len() as nat, 2) + b);
    assert(span =~= readable_of(buf, c2));
    assert(span.subrange(0, 2) =~= le_bytes_of(b.len() as nat, 2));
    assert(frame_body(span) =~= b);
    assert(readable_of(buf, c3) =~= Seq::<u8>::empty());
}

/// Wraparound: in the inverted layout (a commit has wrapped past the end
/// of the region), a read hands out the span up to the watermark; after
/// releasing all of it the next read resumes at offset 0 and hands out the
/// rest, and the two spans together are exactly the readable content —
/// nothing is lost, nothing is duplicated.
pub proof fn lemma_wraparound_no_loss(buf: Seq<u8>, c: SpscCoord, cap: nat)
    requires
        c.wf(cap),
        buf.len() == cap,
        c.inverted(),
        !c.read_open,
        c.read < c.last,
        0 < c.write,
    ensures
        ({
            let span1 = readable_of(buf, c).take(c.last - c.read);
            let c2 = c.after_read().after_release((c.last - c.read) as usize);
            let span2 = readable_of(buf, c2).take(c2.normalized().avail());
            &&& c.can_read()
            &&& c.normalized().avail() == c.last - c.read
            &&& span1 == buf.subrange(c.read as int, c.last as int)
            &&& c2.can_read()
            &&& c2.normalized().read == 0
            &&& c2.normalized().avail() == c.write
            &&& span2 == buf.subrange(0, c.write as int)
            &&& span1 + span2 == readable_of(buf, c)
        }),
{
    let span1 = readable_of(buf, c).take(c.last - c.read);
    let c2 = c.after_read().after_release((c.last - c.read) as usize);
    let span2 = readable_of(buf, c2).take(c2.normalized().avail());
    assert(span1 =~= buf.subrange(c.read as int, c.last as int));
    assert(readable_of(buf, c2) =~= buf.subrange(0, c.write as int));
    assert(span2 =~= buf.subrange(0, c.write as int));
    assert(span1 + span2 =~= readable_of(buf, c));
}

/// Abort idempotence, over the whole queue: take a write grant, scribble
/// anything into the granted window, then commit zero bytes. The cursor
/// state is exactly as before the grant, and the readable content is
/// untouched — only bytes inside the (never published) window changed.
pub proof fn lemma_abort_leaves_no_trace(
    buf0: Seq<u8>,
    buf1: Seq<u8>,
    c: SpscCoord,
    cap: nat,
    sz: usize,
)
    requires
        c.wf(cap),
        c.can_grant_exact(cap, sz),
        buf0.len() == cap,
        buf1.len() == cap,
        forall|j: int|
            0 <= j < cap && !(c.grant_exact_start(cap, sz) <= j < c.grant_exact_start(cap, sz)
                + sz) ==> #[trigger] buf1[j] == buf0[j],
    ensures
        c.after_grant_exact(cap, sz).after_commit(cap, 0) == c,
        readable_of(buf1, c) == readable_of(buf0, c),
{
    crate::coord::lemma_abort_restores(c, cap, sz);
    assert forall|k: int| 0 <= k < readable_of(buf0, c).len() implies readable_of(buf1, c)[k]
        == readable_of(buf0, c)[k] by {
        if c.inverted() {
            if k < c.last - c.read {
                assert(buf1[c.read + k] == buf0[c.read + k]);
            } else {
                assert(buf1[k - (c.last - c.read)] == buf0[k - (c.last - c.read)]);
            }
        } else {
            assert(buf1[c.read + k] == buf0[c.read + k]);
        }
    }
    assert(readable_of(buf1, c) =~= readable_of(buf0, c));
}

} // verus!
