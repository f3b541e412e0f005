//! The encode side: owned, serialized tags and the assembler that
//! concatenates them into one compliant blob. Each tag constructor of the
//! concrete tag kinds produces a [`TagBytes`]; [`InformationBuilder`] pads
//! each tag to 8-byte alignment, appends the terminator tag, and prepends
//! the blob header with the correct total size. Decoding the assembled blob
//! provably yields the supplied tags, in order, with byte-identical bodies.

use crate::model::{assemble_spec, assembled_size, blob_header_wf, encode_tag, encode_tags_partial,
    encode_tags_region, lemma_align8, lemma_encode_tags_partial_push, lemma_encode_tags_region_split,
    lemma_information_round_trip, lemma_pad8, pad8, parse_tags, tag_spec_wf, terminator_bytes,
    TagSpec};
use crate::StructuralError;
use vstd::bytes::u32_to_le_bytes;
use vstd::prelude::*;

verus! {

/// One serialized tag awaiting assembly: its type code and its body bytes.
/// The on-wire header is not stored; the assembler derives the size field
/// from the body's length, so the two can never disagree.
pub struct TagBytes {
    typ: u32,
    body: Vec<u8>,
}

impl View for TagBytes {
    type V = TagSpec;

    closed spec fn view(&self) -> TagSpec {
        TagSpec { typ: self.typ, body: self.body@ }
    }
}

impl TagBytes {
    /// Every value of this type is a tag a conformant producer can emit:
    /// not a terminator, and small enough for the 32-bit size field.
    #[verifier::type_invariant]
    pub closed spec fn inv(self) -> bool {
        tag_spec_wf(self@)
    }

    /// Wraps a type code and a body as a serialized tag. The terminator tag
    /// (type code 0) is never built by hand: the assembler appends it.
    pub fn new(typ: u32, body: Vec<u8>) -> (r: Self)
        requires
            typ != 0,
            8 + body@.len() <= u32::MAX,
        ensures
            r@ == (TagSpec { typ, body: body@ }),
    {
        TagBytes { typ, body }
    }

    /// The tag's type code.
    pub fn typ(&self) -> (r: u32)
        ensures
            r == self@.typ,
    {
        self.typ
    }

    /// The tag's body bytes.
    pub fn body(&self) -> (r: &Vec<u8>)
        ensures
            r@ == self@.body,
    {
        &self.body
    }
}

/// Assembles an ordered list of serialized tags into one boot information
/// blob: for each tag its header and body, then zero padding up to the next
/// multiple of 8; after all tags the 8-byte terminator; in front of
/// everything the blob header carrying the total size.
pub struct InformationBuilder {
    tags: Vec<TagBytes>,
}

impl View for InformationBuilder {
    type V = Seq<TagSpec>;

    closed spec fn view(&self) -> Seq<TagSpec> {
        self.tags@.map_values(|t: TagBytes| t@)
    }
}

impl InformationBuilder {
    /// Starts an assembler with no tags.
    pub fn new() -> (r: Self)
        ensures
            r@ == Seq::<TagSpec>::empty(),
    {
        let r = InformationBuilder { tags: Vec::new() };
        proof {
            assert(r@ =~= Seq::<TagSpec>::empty());
        }
        r
    }

    /// Appends one tag to the list to assemble. Tags are kept in the order
    /// they are added; the assembler never reorders or deduplicates.
    pub fn add_tag(&mut self, t: TagBytes)
        ensures
            final(self)@ == old(self)@.push(t@),
    {
        let ghost tv = t@;
        self.tags.push(t);
        proof {
            assert(final(self)@ =~= old(self)@.push(tv));
        }
    }

    /// Assembles the blob. Fails with `TooLarge` exactly when the blob would
    /// not fit the 32-bit `total_size` field of the header; otherwise the
    /// result is the byte-exact encoding of the added tags, and decoding its
    /// tag region yields them back.
    pub fn build(&self) -> (r: Result<Vec<u8>, StructuralError>)
        ensures
            match r {
                Ok(blob) => {
                    &&& assembled_size(self@) <= u32::MAX
                    &&& blob@ == assemble_spec(self@)
                    &&& blob_header_wf(blob@)
                    &&& parse_tags(blob@.skip(8)) == Some(self@)
                },
                Err(e) => {
                    &&& e == StructuralError::TooLarge
                    &&& assembled_size(self@) > u32::MAX
                },
            },
    {
        let ghost all = self@;
        let mut region: Vec<u8> = Vec::new();
        let mut i: usize = 0;
        proof {
            assert(all.take(0) =~= Seq::<TagSpec>::empty());
            assert(region@ =~= encode_tags_partial(all.take(0)));
        }
        while i < self.tags.len()
            invariant
                0 <= i <= self.tags.len(),
                all == self@,
                region@ == encode_tags_partial(all.take(i as int)),
                forall|j: int| 0 <= j < i ==> tag_spec_wf(#[trigger] all[j]),
            decreases self.tags.len() - i,
        {
            let t = &self.tags[i];
            proof {
                use_type_invariant(t);
                assert(t@ == all[i as int]);
            }
            let ghost region0 = region@;
            let ghost enc = encode_tag(t@);
            let mut typ_bytes = u32_to_le_bytes(t.typ);
            region.append(&mut typ_bytes);
            let size: u32 = (t.body.len() as u64 + 8) as u32;
            let mut size_bytes = u32_to_le_bytes(size);
            region.append(&mut size_bytes);
            region.extend_from_slice(t.body.as_slice());
            proof {
                assert(region@ =~= region0 + enc);
            }
            let size_rem: usize = (size as usize) % 8;
            let pad: usize = if size_rem == 0 {
                0
            } else {
                8 - size_rem
            };
            proof {
                lemma_align8(enc.len() as int);
                lemma_pad8(enc);
            }
            let mut k: usize = 0;
            while k < pad
                invariant
                    0 <= k <= pad,
                    region@.len() == region0.len() + enc.len() + k,
                    region@ == region0 + enc + Seq::new(k as nat, |m: int| 0u8),
                decreases pad - k,
            {
                region.push(0u8);
                proof {
                    assert(region@ =~= region0 + enc + Seq::new((k + 1) as nat, |m: int| 0u8));
                }
                k = k + 1;
            }
            proof {
                assert(region@ =~= region0 + pad8(enc));
                lemma_encode_tags_partial_push(all.take(i as int), t@);
                assert(all.take(i as int).push(all[i as int]) =~= all.take(i + 1));
            }
            i = i + 1;
        }
        proof {
            assert(all.take(all.len() as int) =~= all);
        }
        let mut term_typ = u32_to_le_bytes(0);
        region.append(&mut term_typ);
        let mut term_size = u32_to_le_bytes(8);
        region.append(&mut term_size);
        proof {
            assert(region@ =~= encode_tags_partial(all) + terminator_bytes());
            lemma_encode_tags_region_split(all);
            assert(region@ == encode_tags_region(all));
        }
        if region.len() as u64 > (u32::MAX - 8) as u64 {
            return Err(StructuralError::TooLarge);
        }
        let total: u32 = (region.len() as u64 + 8) as u32;
        let mut blob = u32_to_le_bytes(total);
        let mut reserved = u32_to_le_bytes(0);
        blob.append(&mut reserved);
        let mut region_moved = region;
        blob.append(&mut region_moved);
        proof {
            assert(blob@ =~= assemble_spec(all));
            lemma_information_round_trip(all);
        }
        Ok(blob)
    }
}

} // verus!
