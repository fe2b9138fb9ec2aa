//! Storage strategies: the fixed-capacity byte region that backs a queue.
//!
//! A storage only holds bytes; all policy (who may touch which offset when)
//! lives in the coordination engine. Implementations differ in where the
//! bytes live: [`Inline`] keeps them in a region sized at compile time,
//! [`BoxedSlice`] in a heap allocation sized at run time.

use vstd::prelude::*;

verus! {

/// A fixed-capacity byte region. The capacity never changes over the
/// storage's lifetime.
pub trait Storage {
    /// The bytes currently held, as a mathematical sequence.
    spec fn contents(&self) -> Seq<u8>;

    /// The capacity of the region.
    fn capacity(&self) -> (n: usize)
        ensures
            n == self.contents().len(),
    ;

    /// Reads the byte at offset `i`.
    fn read_byte(&self, i: usize) -> (b: u8)
        requires
            i < self.contents().len(),
        ensures
            b == self.contents()[i as int],
    ;

    /// Writes the byte at offset `i`; no other byte changes, and the
    /// capacity stays the same.
    fn write_byte(&mut self, i: usize, b: u8)
        requires
            i < old(self).contents().len(),
        ensures
            final(self).contents() == old(self).contents().update(i as int, b),
    ;
}

/// A byte region whose capacity `N` is fixed at compile time, zeroed at
/// construction.
pub struct Inline<const N: usize> {
    buf: Vec<u8>,
}

impl<const N: usize> Inline<N> {
    /// Creates a zeroed region of capacity `N`.
    pub fn new() -> (s: Self)
        ensures
            s.contents() == Seq::<u8>::new(N as nat, |i: int| 0u8),
    {
        let mut buf: Vec<u8> = Vec::new();
        let mut i: usize = 0;
        while i < N
            invariant
                i <= N,
                buf@ == Seq::<u8>::new(i as nat, |j: int| 0u8),
            decreases N - i,
        {
            buf.push(0);
            proof {
                assert(buf@ =~= Seq::<u8>::new((i + 1) as nat, |j: int| 0u8));
            }
            i = i + 1;
        }
        Inline { buf }
    }
}

impl<const N: usize> Storage for Inline<N> {
    closed spec fn contents(&self) -> Seq<u8> {
        self.buf@
    }

    fn capacity(&self) -> (n: usize) {
        self.buf.len()
    }

    fn read_byte(&self, i: usize) -> (b: u8) {
        self.buf[i]
    }

    fn write_byte(&mut self, i: usize, b: u8) {
        self.buf.set(i, b);
    }
}

/// A byte region allocated on the heap, with its capacity chosen at run
/// time, zeroed at construction.
pub struct BoxedSlice {
    buf: Vec<u8>,
}

impl BoxedSlice {
    /// Creates a zeroed region of capacity `len`.
    pub fn new(len: usize) -> (s: Self)
        ensures
            s.contents() == Seq::<u8>::new(len as nat, |i: int| 0u8),
    {
        let mut buf: Vec<u8> = Vec::new();
        let mut i: usize = 0;
        while i < len
            invariant
                i <= len,
                buf@ == Seq::<u8>::new(i as nat, |j: int| 0u8),
            decreases len - i,
        {
            buf.push(0);
            proof {
                assert(buf@ =~= Seq::<u8>::new((i + 1) as nat, |j: int| 0u8));
            }
            i = i + 1;
        }
        BoxedSlice { buf }
    }
}

impl Storage for BoxedSlice {
    closed spec fn contents(&self) -> Seq<u8> {
        self.buf@
    }

    fn capacity(&self) -> (n: usize) {
        self.buf.len()
    }

    fn read_byte(&self, i: usize) -> (b: u8) {
        self.buf[i]
    }

    fn write_byte(&mut self, i: usize, b: u8) {
        self.buf.set(i, b);
    }
}

} // verus!
