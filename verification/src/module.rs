//! The boot module tag: it tells the kernel what boot module was loaded
//! along with the kernel image and where it sits in memory. Its body is the
//! module's start and end addresses followed by a NUL-terminated UTF-8
//! command line. A blob may carry any number of module tags; [`module_iter`]
//! walks a tag stream yielding exactly those.

use crate::builder::TagBytes;
use crate::cursor::ByteCursor;
use crate::model::{parse_tags, step_advance, TagSpec};
use crate::stream::{TagStream, TagView};
use crate::text::{c_string_body, decode_text};
use crate::{StructuralError, TAG_TYPE_MODULE};
use vstd::bytes::{lemma_auto_spec_u32_to_from_le_bytes, spec_u32_to_le_bytes, u32_to_le_bytes};
use vstd::prelude::*;
use vstd::slice::{slice_subrange, slice_to_vec};
use vstd::utf8::{decode_utf8, encode_utf8, valid_utf8};

verus! {

/// What a module tag means: the module's memory range and its
/// NUL-terminated command line bytes.
pub struct ModuleSpec {
    pub mod_start: u32,
    pub mod_end: u32,
    pub cmdline: Seq<u8>,
}

/// The body bytes that carry a module description on the wire.
pub open spec fn module_body_bytes(m: ModuleSpec) -> Seq<u8> {
    spec_u32_to_le_bytes(m.mod_start) + spec_u32_to_le_bytes(m.mod_end) + m.cmdline
}

/// An owned decoding of a module tag.
pub struct ModuleTag {
    mod_start: u32,
    mod_end: u32,
    cmdline: Vec<u8>,
}

impl View for ModuleTag {
    type V = ModuleSpec;

    closed spec fn view(&self) -> ModuleSpec {
        ModuleSpec { mod_start: self.mod_start, mod_end: self.mod_end, cmdline: self.cmdline@ }
    }
}

impl ModuleTag {
    /// The command line always holds at least the terminating NUL byte, and
    /// the tag fits the 32-bit size field.
    #[verifier::type_invariant]
    pub closed spec fn inv(self) -> bool {
        &&& self@.cmdline.len() >= 1
        &&& 16 + self@.cmdline.len() <= u32::MAX
    }

    /// The logical tag this module description stands for.
    pub open spec fn tag_spec(self) -> TagSpec {
        TagSpec { typ: TAG_TYPE_MODULE, body: module_body_bytes(self@) }
    }

    /// Builds the tag describing a module loaded at `[start, end)` with the
    /// command line `cmdline`. The command line must not contain a NUL
    /// character, and must leave the tag within the 32-bit size field.
    pub fn new(start: u32, end: u32, cmdline: &str) -> (r: Self)
        requires
            forall|i: int|
                0 <= i < encode_utf8(cmdline@).len() ==> #[trigger] encode_utf8(cmdline@)[i] != 0,
            encode_utf8(cmdline@).len() + 17 <= u32::MAX,
        ensures
            r@ == (ModuleSpec {
                mod_start: start,
                mod_end: end,
                cmdline: encode_utf8(cmdline@).push(0u8),
            }),
    {
        ModuleTag { mod_start: start, mod_end: end, cmdline: c_string_body(cmdline) }
    }

    /// Decodes a tag view as a module tag. Fails exactly when the view is
    /// not a module tag, its body cannot fit a tag's size field, or the body
    /// is too short for the two addresses and the terminating NUL.
    pub fn from_view(tv: &TagView) -> (r: Result<Self, StructuralError>)
        ensures
            r is Ok <==> (tv@.typ == TAG_TYPE_MODULE && tv@.body.len() + 8 <= u32::MAX
                && tv@.body.len() >= 9),
            match r {
                Ok(t) => {
                    &&& t@.mod_start == vstd::bytes::spec_u32_from_le_bytes(tv@.body.subrange(0, 4))
                    &&& t@.mod_end == vstd::bytes::spec_u32_from_le_bytes(tv@.body.subrange(4, 8))
                    &&& t@.cmdline == tv@.body.skip(8)
                    &&& t.tag_spec() == tv@
                },
                Err(e) => {
                    &&& e == (if tv@.typ != TAG_TYPE_MODULE {
                        StructuralError::TypeMismatch
                    } else if tv@.body.len() + 8 > u32::MAX {
                        StructuralError::TooLarge
                    } else {
                        StructuralError::InvalidBody
                    })
                },
            },
    {
        if tv.typ != TAG_TYPE_MODULE {
            return Err(StructuralError::TypeMismatch);
        }
        let n = tv.body.len();
        if n as u64 > (u32::MAX - 8) as u64 {
            return Err(StructuralError::TooLarge);
        }
        if n < 9 {
            return Err(StructuralError::InvalidBody);
        }
        let mut cur = ByteCursor::new(tv.body);
        let start = cur.read_u32();
        let end = cur.read_u32();
        let cmdline = slice_to_vec(cur.rest());
        let t = ModuleTag { mod_start: start, mod_end: end, cmdline };
        proof {
            lemma_auto_spec_u32_to_from_le_bytes();
            assert(module_body_bytes(t@) =~= tv@.body);
        }
        Ok(t)
    }

    /// Reads the module's command line: the bytes before the final NUL,
    /// decoded as UTF-8. Fails exactly when those bytes are not valid UTF-8.
    pub fn cmdline(&self) -> (r: Result<&str, crate::EncodingError>)
        ensures
            r is Ok <==> valid_utf8(self@.cmdline.drop_last()),
            r matches Ok(s) ==> s@ == decode_utf8(self@.cmdline.drop_last()) && encode_utf8(s@)
                == self@.cmdline.drop_last(),
    {
        proof {
            use_type_invariant(&*self);
        }
        let n = self.cmdline.len();
        let text = slice_subrange(self.cmdline.as_slice(), 0, n - 1);
        proof {
            assert(text@ =~= self@.cmdline.drop_last());
        }
        decode_text(text)
    }

    /// Start address of the module.
    pub fn start_address(&self) -> (r: u32)
        ensures
            r == self@.mod_start,
    {
        self.mod_start
    }

    /// End address of the module.
    pub fn end_address(&self) -> (r: u32)
        ensures
            r == self@.mod_end,
    {
        self.mod_end
    }

    /// The size of the module in memory. The start address must not lie
    /// above the end address.
    pub fn module_size(&self) -> (r: u32)
        requires
            self@.mod_start <= self@.mod_end,
        ensures
            r == self@.mod_end - self@.mod_start,
    {
        self.mod_end - self.mod_start
    }

    /// The tag, serialized for the assembler.
    pub fn to_tag_bytes(&self) -> (r: TagBytes)
        ensures
            r@ == self.tag_spec(),
    {
        proof {
            use_type_invariant(&*self);
        }
        let mut body = u32_to_le_bytes(self.mod_start);
        let mut end_bytes = u32_to_le_bytes(self.mod_end);
        body.append(&mut end_bytes);
        body.extend_from_slice(self.cmdline.as_slice());
        proof {
            assert(body@ =~= module_body_bytes(self@));
        }
        TagBytes::new(TAG_TYPE_MODULE, body)
    }
}

/// The module tags among `ts`, in on-wire order.
pub open spec fn module_tags_of(ts: Seq<TagSpec>) -> Seq<TagSpec>
    decreases ts.len(),
{
    if ts.len() == 0 {
        Seq::empty()
    } else if ts[0].typ == TAG_TYPE_MODULE {
        seq![ts[0]] + module_tags_of(ts.drop_first())
    } else {
        module_tags_of(ts.drop_first())
    }
}

/// Wraps a tag stream as an iterator over its module tags.
pub fn module_iter<'a>(iter: TagStream<'a>) -> (r: ModuleIter<'a>)
    requires
        iter.wf(),
    ensures
        r.wf(),
        r.remaining_tags() == iter.remaining_tags(),
{
    ModuleIter { iter }
}

/// An iterator over the module tags of a tag stream: it skips tags of every
/// other type, exactly as a consumer matching on the type code would.
pub struct ModuleIter<'a> {
    iter: TagStream<'a>,
}

impl<'a> ModuleIter<'a> {
    /// The underlying stream is well-formed.
    pub closed spec fn wf(self) -> bool {
        self.iter.wf()
    }

    /// The logical tags (of all types) the underlying stream has yet to
    /// yield.
    pub closed spec fn remaining_tags(self) -> Option<Seq<TagSpec>> {
        self.iter.remaining_tags()
    }

    /// Yields the next module tag, decoded; skips tags of other types.
    /// When the rest of the stream is well-formed, the iterator yields
    /// exactly the module tags among the remaining tags, in order, and fails
    /// only on a module tag whose body is too short for its kind. When the
    /// rest of the stream is malformed, the iterator never reports a clean
    /// end: it either yields a module tag that precedes the damage or
    /// surfaces an error.
    pub fn next(&mut self) -> (r: Result<Option<ModuleTag>, StructuralError>)
        requires
            old(self).wf(),
        ensures
            final(self).wf(),
            old(self).remaining_tags() is None ==> (r matches Ok(m) ==> m is Some),
            old(self).remaining_tags() matches Some(ts) ==> {
                let ms = module_tags_of(ts);
                match r {
                    Ok(Some(m)) => {
                        &&& ms.len() > 0
                        &&& m.tag_spec() == ms[0]
                        &&& final(self).remaining_tags() matches Some(ts2) && module_tags_of(ts2)
                            == ms.drop_first()
                    },
                    Ok(None) => ms.len() == 0,
                    Err(e) => {
                        &&& ms.len() > 0
                        &&& ms[0].body.len() < 9
                        &&& e == StructuralError::InvalidBody
                    },
                }
            },
    {
        let ghost ts0 = old(self).remaining_tags();
        loop
            invariant
                self.iter.wf(),
                ts0 == old(self).remaining_tags(),
                ts0 is None ==> self.iter.remaining_tags() is None,
                ts0 matches Some(ts) ==> self.iter.remaining_tags() matches Some(cur)
                    && module_tags_of(cur) == module_tags_of(ts),
            decreases self.iter.remaining_bytes().len(),
        {
            let ghost rem = self.iter.remaining_bytes();
            let ghost cur_tags = self.iter.remaining_tags();
            let ghost c0 = self.iter.cursor();
            let ghost reg = self.iter.region_spec();
            proof {
                self.iter.lemma_cursor_aligned();
            }
            let step = self.iter.next();
            match step {
                Err(e) => {
                    proof {
                        if ts0 is Some {
                            // a malformed head contradicts the parseable rest
                            assert(parse_tags(rem) is None);
                            assert(false);
                        }
                    }
                    return Err(e);
                },
                Ok(None) => {
                    proof {
                        if ts0 is Some {
                            assert(parse_tags(rem) == Some(Seq::<TagSpec>::empty()));
                        } else {
                            // the head is a well-formed terminator, so the
                            // remainder parses, contradicting the invariant
                            assert(parse_tags(rem) is Some);
                            assert(false);
                        }
                    }
                    return Ok(None);
                },
                Ok(Some(tv)) => {
                    proof {
                        crate::model::lemma_align8(crate::model::head_size(rem));
                        let adv = step_advance(rem);
                        let newrem = self.iter.remaining_bytes();
                        assert(8 <= adv <= rem.len());
                        assert(self.iter.cursor() == c0 + adv);
                        assert(self.iter.region_spec() == reg);
                        assert(rem == reg.skip(c0));
                        assert(0 <= c0 <= reg.len());
                        assert(rem.len() == reg.len() - c0);
                        assert(newrem == reg.skip(c0 + adv));
                        assert(newrem.len() == reg.len() - (c0 + adv));
                        assert forall|i: int| 0 <= i < newrem.len() implies newrem[i] == rem.skip(
                            adv,
                        )[i] by {
                            assert(newrem[i] == reg[c0 + adv + i]);
                            assert(rem.skip(adv)[i] == rem[adv + i]);
                            assert(rem[adv + i] == reg[c0 + adv + i]);
                        }
                        assert(self.iter.remaining_bytes() =~= rem.skip(step_advance(rem)));
                        match cur_tags {
                            Some(cur) => {
                                let rest = parse_tags(rem.skip(step_advance(rem)));
                                assert(rest is Some);
                                assert(cur == seq![crate::model::step_tag(rem)] + rest->0);
                                assert(cur.len() > 0);
                                assert(tv@ == cur[0]);
                                assert(cur.drop_first() =~= rest->0);
                                assert(self.iter.remaining_tags() == Some(cur.drop_first()));
                            },
                            None => {
                                // a parseable rest would make the whole
                                // remainder parse, so it is malformed too
                                if parse_tags(rem.skip(step_advance(rem))) is Some {
                                    assert(parse_tags(rem) is Some);
                                }
                                assert(self.iter.remaining_tags() is None);
                            },
                        }
                    }
                    if tv.typ == TAG_TYPE_MODULE {
                        match ModuleTag::from_view(&tv) {
                            Ok(m) => {
                                return Ok(Some(m));
                            },
                            Err(e) => {
                                return Err(e);
                            },
                        }
                    }
                },
            }
        }
    }
}

} // verus!
