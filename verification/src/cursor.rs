//! A primitive sequential reader over a borrowed byte slice with explicit
//! remaining-length tracking. Tag bodies are packed records without
//! alignment padding, so their fields are decoded one primitive at a time
//! through this cursor rather than through any structure layout.

use vstd::bytes::{spec_u32_from_le_bytes, spec_u64_from_le_bytes, u32_from_le_bytes,
    u64_from_le_bytes};
use vstd::prelude::*;
use vstd::slice::slice_subrange;

verus! {

/// A read-only cursor over a byte slice: the slice and the offset of the
/// next unread byte.
pub struct ByteCursor<'a> {
    buf: &'a [u8],
    pos: usize,
}

impl<'a> ByteCursor<'a> {
    /// The bytes the cursor reads from.
    pub closed spec fn buf_spec(self) -> Seq<u8> {
        self.buf@
    }

    /// The offset of the next unread byte.
    pub closed spec fn pos_spec(self) -> int {
        self.pos as int
    }

    /// The cursor never points past the end of its slice.
    pub closed spec fn wf(self) -> bool {
        self.pos <= self.buf@.len()
    }

    /// How many bytes are left to read.
    pub open spec fn remaining_spec(self) -> int {
        self.buf_spec().len() - self.pos_spec()
    }

    /// Starts a cursor at the beginning of `buf`.
    pub fn new(buf: &'a [u8]) -> (r: Self)
        ensures
            r.wf(),
            r.buf_spec() == buf@,
            r.pos_spec() == 0,
    {
        ByteCursor { buf, pos: 0 }
    }

    /// How many bytes are left to read.
    pub fn remaining(&self) -> (r: usize)
        requires
            self.wf(),
        ensures
            r == self.remaining_spec(),
    {
        self.buf.len() - self.pos
    }

    /// Reads the next byte and advances past it.
    pub fn read_u8(&mut self) -> (r: u8)
        requires
            old(self).wf(),
            old(self).remaining_spec() >= 1,
        ensures
            final(self).wf(),
            final(self).buf_spec() == old(self).buf_spec(),
            final(self).pos_spec() == old(self).pos_spec() + 1,
            r == old(self).buf_spec()[old(self).pos_spec()],
    {
        let r = self.buf[self.pos];
        self.pos = self.pos + 1;
        r
    }

    /// Reads the next 4 bytes as a little-endian `u32` and advances past
    /// them.
    pub fn read_u32(&mut self) -> (r: u32)
        requires
            old(self).wf(),
            old(self).remaining_spec() >= 4,
        ensures
            final(self).wf(),
            final(self).buf_spec() == old(self).buf_spec(),
            final(self).pos_spec() == old(self).pos_spec() + 4,
            r == spec_u32_from_le_bytes(
                old(self).buf_spec().subrange(old(self).pos_spec(), old(self).pos_spec() + 4),
            ),
    {
        proof {
            vstd::slice::axiom_spec_len(self.buf);
        }
        let window = slice_subrange(self.buf, self.pos, self.pos + 4);
        self.pos = self.pos + 4;
        u32_from_le_bytes(window)
    }

    /// Reads the next 8 bytes as a little-endian `u64` and advances past
    /// them.
    pub fn read_u64(&mut self) -> (r: u64)
        requires
            old(self).wf(),
            old(self).remaining_spec() >= 8,
        ensures
            final(self).wf(),
            final(self).buf_spec() == old(self).buf_spec(),
            final(self).pos_spec() == old(self).pos_spec() + 8,
            r == spec_u64_from_le_bytes(
                old(self).buf_spec().subrange(old(self).pos_spec(), old(self).pos_spec() + 8),
            ),
    {
        proof {
            vstd::slice::axiom_spec_len(self.buf);
        }
        let window = slice_subrange(self.buf, self.pos, self.pos + 8);
        self.pos = self.pos + 8;
        u64_from_le_bytes(window)
    }

    /// Advances past `n` bytes without reading them.
    pub fn skip(&mut self, n: usize)
        requires
            old(self).wf(),
            old(self).remaining_spec() >= n,
        ensures
            final(self).wf(),
            final(self).buf_spec() == old(self).buf_spec(),
            final(self).pos_spec() == old(self).pos_spec() + n,
    {
        proof {
            vstd::slice::axiom_spec_len(self.buf);
        }
        self.pos = self.pos + n;
    }

    /// The bytes not yet read, as a borrowed slice.
    pub fn rest(&self) -> (r: &'a [u8])
        requires
            self.wf(),
        ensures
            r@ == self.buf_spec().subrange(self.pos_spec(), self.buf_spec().len() as int),
    {
        slice_subrange(self.buf, self.pos, self.buf.len())
    }
}

} // verus!
