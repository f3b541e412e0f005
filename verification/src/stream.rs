//! The tag-stream engine: a validated root view over the boot information
//! blob, and an iterator that walks its byte region tag by tag, yielding a
//! borrowed view of each tag. The walk honors the bounds and alignment
//! invariants of the format and never reads past the supplied region; a
//! region that violates the format is reported as a [`StructuralError`].

use crate::model::{blob_header_wf, head_size, head_typ, parse_tags, spec_align8, step_advance,
    step_error, step_is_end, step_is_tag, step_tag, TagSpec};
use crate::StructuralError;
use vstd::bytes::u32_from_le_bytes;
use vstd::prelude::*;
use vstd::slice::slice_subrange;

verus! {

/// A typed, read-only view of one tag: its type code and a borrowed slice of
/// its body (the bytes after the 8-byte tag header, excluding alignment
/// padding). The view never outlives the byte region it was cut from and
/// never mutates it; any number of views of one region may coexist.
pub struct TagView<'a> {
    /// The tag's type code. Unrecognized codes are not an error: the stream
    /// yields such tags like any other, and consumers skip what they do not
    /// match on.
    pub typ: u32,
    /// The tag's body: `size - 8` bytes, as declared by the tag header.
    pub body: &'a [u8],
}

impl<'a> View for TagView<'a> {
    type V = TagSpec;

    open spec fn view(&self) -> TagSpec {
        TagSpec { typ: self.typ, body: self.body@ }
    }
}

impl<'a> TagView<'a> {
    /// The tag's declared size: the 8 header bytes plus the body.
    pub fn size(&self) -> (r: usize)
        requires
            self.body@.len() + 8 <= usize::MAX,
        ensures
            r == self.body@.len() + 8,
    {
        self.body.len() + 8
    }
}

/// Walks a byte region tag by tag. The region is the part of the blob that
/// follows the 8-byte blob header, so the first tag starts at offset 0 and
/// every further tag starts at the next 8-byte-aligned offset.
pub struct TagStream<'a> {
    region: &'a [u8],
    pos: usize,
}

impl<'a> TagStream<'a> {
    /// The byte region the stream walks.
    pub closed spec fn region_spec(self) -> Seq<u8> {
        self.region@
    }

    /// The offset of the next tag, relative to the first tag.
    pub closed spec fn cursor(self) -> int {
        self.pos as int
    }

    /// The cursor stays inside the region and on an 8-byte boundary.
    pub closed spec fn wf(self) -> bool {
        &&& self.pos <= self.region@.len()
        &&& self.pos % 8 == 0
    }

    /// The bytes the stream has not yet consumed.
    pub open spec fn remaining_bytes(self) -> Seq<u8> {
        self.region_spec().skip(self.cursor())
    }

    /// The logical tags the stream has yet to yield, or `None` when the rest
    /// of the region is malformed.
    pub open spec fn remaining_tags(self) -> Option<Seq<TagSpec>> {
        parse_tags(self.remaining_bytes())
    }

    /// Starts a stream at the first tag of `region`.
    pub fn new(region: &'a [u8]) -> (r: Self)
        ensures
            r.wf(),
            r.region_spec() == region@,
            r.cursor() == 0,
    {
        TagStream { region, pos: 0 }
    }

    /// The alignment invariant: every tag this stream yields starts at an
    /// offset that is a multiple of 8 from the first tag, and the cursor
    /// never leaves the region.
    pub proof fn lemma_cursor_aligned(self)
        requires
            self.wf(),
        ensures
            self.cursor() % 8 == 0,
            0 <= self.cursor() <= self.region_spec().len(),
    {
    }

    /// Yields the next tag (`Ok(Some(..))`), reports the terminator as the
    /// end of the stream (`Ok(None)`), or reports that the rest of the
    /// region is malformed (`Err(..)`): a tag header or a padded tag would
    /// overrun the region, or a declared size is impossible. On end and on
    /// error the stream does not move.
    pub fn next(&mut self) -> (r: Result<Option<TagView<'a>>, StructuralError>)
        requires
            old(self).wf(),
        ensures
            final(self).wf(),
            final(self).region_spec() == old(self).region_spec(),
            old(self).cursor() % 8 == 0,
            ({
                let rem = old(self).remaining_bytes();
                match r {
                    Ok(Some(tv)) => {
                        &&& step_is_tag(rem)
                        &&& tv@ == step_tag(rem)
                        &&& tv.body@ == old(self).region_spec().subrange(
                            old(self).cursor() + 8,
                            old(self).cursor() + 8 + tv.body@.len(),
                        )
                        &&& final(self).cursor() == old(self).cursor() + step_advance(rem)
                    },
                    Ok(None) => step_is_end(rem) && *final(self) == *old(self),
                    Err(e) => {
                        &&& !step_is_tag(rem)
                        &&& !step_is_end(rem)
                        &&& e == step_error(rem)
                        &&& *final(self) == *old(self)
                    },
                }
            }),
    {
        let ghost rem = self.region@.skip(self.pos as int);
        let len = self.region.len();
        if len - self.pos < 8 {
            return Err(StructuralError::TruncatedTag);
        }
        let typ = u32_from_le_bytes(slice_subrange(self.region, self.pos, self.pos + 4));
        let size = u32_from_le_bytes(slice_subrange(self.region, self.pos + 4, self.pos + 8));
        proof {
            assert(rem.subrange(0, 4) =~= self.region@.subrange(
                self.pos as int,
                self.pos as int + 4,
            ));
            assert(rem.subrange(4, 8) =~= self.region@.subrange(
                self.pos as int + 4,
                self.pos as int + 8,
            ));
            assert(typ == head_typ(rem));
            assert(size == head_size(rem));
        }
        if typ == 0 {
            if size == 8 {
                Ok(None)
            } else {
                Err(StructuralError::InvalidTagSize)
            }
        } else if size < 8 {
            Err(StructuralError::InvalidTagSize)
        } else {
            let size_rem: u32 = size % 8;
            let advance: u64 = if size_rem == 0 {
                size as u64
            } else {
                size as u64 + (8 - size_rem) as u64
            };
            proof {
                assert(advance == spec_align8(size as int));
            }
            if advance > (len - self.pos) as u64 {
                return Err(StructuralError::TruncatedTag);
            }
            let body = slice_subrange(self.region, self.pos + 8, self.pos + size as usize);
            let tv = TagView { typ, body };
            proof {
                assert(step_is_tag(rem));
                assert(body@ =~= rem.subrange(8, size as int));
                assert(tv@ == step_tag(rem));
            }
            self.pos = self.pos + advance as usize;
            Ok(Some(tv))
        }
    }
}

/// The validated root view over a boot information blob: the raw byte region
/// whose first 8 bytes are the blob header. Constructing it checks that the
/// header's `total_size` equals the region's length, because all further
/// offset arithmetic depends on that.
pub struct BootInformation<'a> {
    buf: &'a [u8],
}

impl<'a> BootInformation<'a> {
    /// The whole blob, header included.
    pub closed spec fn buf_spec(self) -> Seq<u8> {
        self.buf@
    }

    /// The blob header has been validated against the region's length.
    pub closed spec fn wf(self) -> bool {
        blob_header_wf(self.buf@)
    }

    /// The bytes after the blob header: the region the tag stream walks.
    pub open spec fn tag_region(self) -> Seq<u8> {
        self.buf_spec().skip(8)
    }

    /// Validates the blob header of `buf` and wraps the region. Fails with
    /// `BufferTooSmall` exactly when the region cannot hold the 8-byte
    /// header, and with `TotalSizeMismatch` exactly when the header's
    /// `total_size` field differs from the region's length.
    pub fn new(buf: &'a [u8]) -> (r: Result<Self, StructuralError>)
        ensures
            match r {
                Ok(bi) => {
                    &&& bi.wf()
                    &&& bi.buf_spec() == buf@
                    &&& blob_header_wf(buf@)
                },
                Err(e) => {
                    &&& !blob_header_wf(buf@)
                    &&& e == (if buf@.len() < 8 {
                        StructuralError::BufferTooSmall
                    } else {
                        StructuralError::TotalSizeMismatch
                    })
                },
            },
    {
        let len = buf.len();
        if len < 8 {
            return Err(StructuralError::BufferTooSmall);
        }
        let total_size = u32_from_le_bytes(slice_subrange(buf, 0, 4));
        if total_size as u64 != len as u64 {
            return Err(StructuralError::TotalSizeMismatch);
        }
        Ok(BootInformation { buf })
    }

    /// The blob's total size in bytes, as validated against the region.
    pub fn total_size(&self) -> (r: u32)
        requires
            self.wf(),
        ensures
            r == self.buf_spec().len(),
    {
        u32_from_le_bytes(slice_subrange(self.buf, 0, 4))
    }

    /// A stream over the blob's tags, positioned at the first tag.
    pub fn tags(&self) -> (r: TagStream<'a>)
        requires
            self.wf(),
        ensures
            r.wf(),
            r.region_spec() == self.tag_region(),
            r.cursor() == 0,
    {
        let len = self.buf.len();
        let region = slice_subrange(self.buf, 8, len);
        proof {
            assert(region@ =~= self.buf@.skip(8));
        }
        TagStream::new(region)
    }
}

} // verus!
