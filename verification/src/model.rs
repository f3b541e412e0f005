//! The mathematical model of the wire format: what a logical tag is, how a
//! byte region decodes into a sequence of logical tags, and how a sequence of
//! logical tags encodes into a byte region. The executable decoder and
//! encoder are specified against these functions, and the round-trip theorem
//! [`lemma_parse_encoded_tags`] connects the two directions.

use crate::StructuralError;
use vstd::bytes::*;
use vstd::prelude::*;

verus! {

/// A logical tag: its type code and its body bytes, independent of where it
/// sits in a blob and of the padding that follows it on the wire.
pub struct TagSpec {
    pub typ: u32,
    pub body: Seq<u8>,
}

/// A logical tag that a conformant producer can emit: it is not the
/// terminator, and its on-wire size (8 header bytes plus the body) fits the
/// 32-bit size field.
pub open spec fn tag_spec_wf(t: TagSpec) -> bool {
    &&& t.typ != 0
    &&& 8 + t.body.len() <= u32::MAX
}

/// `n` rounded up to the next multiple of 8.
pub open spec fn spec_align8(n: int) -> int {
    n + ((8 - n % 8) % 8)
}

/// The type code stored in the first 4 bytes of a tag header.
pub open spec fn head_typ(r: Seq<u8>) -> u32 {
    spec_u32_from_le_bytes(r.subrange(0, 4))
}

/// The size stored in the second 4 bytes of a tag header. It counts the
/// header and the body and excludes trailing alignment padding.
pub open spec fn head_size(r: Seq<u8>) -> int {
    spec_u32_from_le_bytes(r.subrange(4, 8)) as int
}

/// The remaining region `r` begins with a well-formed terminator tag.
pub open spec fn step_is_end(r: Seq<u8>) -> bool {
    &&& r.len() >= 8
    &&& head_typ(r) == 0
    &&& head_size(r) == 8
}

/// The remaining region `r` begins with a well-formed non-terminator tag:
/// the header is present, the declared size is at least the header's own 8
/// bytes, and the tag together with its alignment padding lies inside `r`.
pub open spec fn step_is_tag(r: Seq<u8>) -> bool {
    &&& r.len() >= 8
    &&& head_typ(r) != 0
    &&& 8 <= head_size(r)
    &&& spec_align8(head_size(r)) <= r.len()
}

/// The logical tag at the head of `r`.
pub open spec fn step_tag(r: Seq<u8>) -> TagSpec {
    TagSpec { typ: head_typ(r), body: r.subrange(8, head_size(r)) }
}

/// How far the cursor advances past the tag at the head of `r`: its declared
/// size rounded up to the 8-byte alignment of the next tag.
pub open spec fn step_advance(r: Seq<u8>) -> int {
    spec_align8(head_size(r))
}

/// Why the head of `r` is neither a tag nor a terminator. Meaningful only
/// when `!step_is_end(r) && !step_is_tag(r)`.
pub open spec fn step_error(r: Seq<u8>) -> StructuralError {
    if r.len() < 8 {
        StructuralError::TruncatedTag
    } else if head_size(r) < 8 || (head_typ(r) == 0 && head_size(r) != 8) {
        StructuralError::InvalidTagSize
    } else {
        StructuralError::TruncatedTag
    }
}

/// Decodes the tag region `r` (the bytes that follow the 8-byte blob header)
/// into the sequence of logical tags it carries, in on-wire order and
/// without filtering by type code. `None` means the region is malformed:
/// a tag header or a tag overruns the region, a declared size is impossible,
/// or the terminator is missing.
pub open spec fn parse_tags(r: Seq<u8>) -> Option<Seq<TagSpec>>
    decreases r.len(),
{
    if step_is_end(r) {
        Some(Seq::empty())
    } else if step_is_tag(r) {
        match parse_tags(r.skip(step_advance(r))) {
            Some(rest) => Some(seq![step_tag(r)] + rest),
            None => None,
        }
    } else {
        None
    }
}

/// The on-wire bytes of one tag, without its alignment padding: the 8-byte
/// header followed by the body.
pub open spec fn encode_tag(t: TagSpec) -> Seq<u8> {
    spec_u32_to_le_bytes(t.typ) + spec_u32_to_le_bytes((8 + t.body.len()) as u32) + t.body
}

/// `s` followed by the zero bytes that pad it to a multiple of 8.
pub open spec fn pad8(s: Seq<u8>) -> Seq<u8> {
    s + Seq::new((spec_align8(s.len() as int) - s.len()) as nat, |i: int| 0u8)
}

/// The on-wire bytes of the terminator tag.
pub open spec fn terminator_bytes() -> Seq<u8> {
    spec_u32_to_le_bytes(0) + spec_u32_to_le_bytes(8)
}

/// The tag region that encodes the logical tags `ts`: each tag padded to
/// 8-byte alignment, in order, followed by the terminator tag.
pub open spec fn encode_tags_region(ts: Seq<TagSpec>) -> Seq<u8>
    decreases ts.len(),
{
    if ts.len() == 0 {
        terminator_bytes()
    } else {
        pad8(encode_tag(ts[0])) + encode_tags_region(ts.drop_first())
    }
}

/// The tag region that encodes the logical tags `ts` without the trailing
/// terminator: each tag padded to 8-byte alignment, in order. The assembler
/// grows this prefix one tag at a time before it appends the terminator.
pub open spec fn encode_tags_partial(ts: Seq<TagSpec>) -> Seq<u8>
    decreases ts.len(),
{
    if ts.len() == 0 {
        Seq::empty()
    } else {
        pad8(encode_tag(ts[0])) + encode_tags_partial(ts.drop_first())
    }
}

/// The full tag region is the terminator appended to the partial encoding.
pub proof fn lemma_encode_tags_region_split(ts: Seq<TagSpec>)
    ensures
        encode_tags_region(ts) == encode_tags_partial(ts) + terminator_bytes(),
    decreases ts.len(),
{
    if ts.len() == 0 {
        assert(encode_tags_region(ts) =~= encode_tags_partial(ts) + terminator_bytes());
    } else {
        lemma_encode_tags_region_split(ts.drop_first());
        assert(encode_tags_region(ts) =~= encode_tags_partial(ts) + terminator_bytes());
    }
}

/// Appending one tag to the list appends its padded encoding to the partial
/// encoding.
pub proof fn lemma_encode_tags_partial_push(ts: Seq<TagSpec>, t: TagSpec)
    ensures
        encode_tags_partial(ts.push(t)) == encode_tags_partial(ts) + pad8(encode_tag(t)),
    decreases ts.len(),
{
    assert(ts.push(t)[0] == ts.push(t).first());
    if ts.len() == 0 {
        assert(ts.push(t)[0] == t);
        assert(ts.push(t).drop_first() =~= Seq::<TagSpec>::empty());
        assert(encode_tags_partial(ts.push(t).drop_first()) =~= Seq::<u8>::empty());
        assert(encode_tags_partial(ts.push(t)) == pad8(encode_tag(t)) + encode_tags_partial(
            ts.push(t).drop_first(),
        ));
        assert(encode_tags_partial(ts) =~= Seq::<u8>::empty());
        assert(encode_tags_partial(ts.push(t)) =~= encode_tags_partial(ts) + pad8(encode_tag(t)));
    } else {
        assert(ts.push(t)[0] == ts[0]);
        assert(ts.push(t).drop_first() =~= ts.drop_first().push(t));
        lemma_encode_tags_partial_push(ts.drop_first(), t);
        let a = pad8(encode_tag(ts[0]));
        let b = encode_tags_partial(ts.drop_first());
        let c = pad8(encode_tag(t));
        assert(encode_tags_partial(ts.push(t).drop_first()) == b + c);
        assert(encode_tags_partial(ts.push(t)) == a + (b + c));
        assert(a + (b + c) =~= (a + b) + c);
        assert(encode_tags_partial(ts) == a + b);
    }
}

/// The whole blob that encodes the logical tags `ts`: an 8-byte header
/// carrying the total size and a zero reserved word, then the tag region.
pub open spec fn assemble_spec(ts: Seq<TagSpec>) -> Seq<u8> {
    spec_u32_to_le_bytes((8 + encode_tags_region(ts).len()) as u32) + spec_u32_to_le_bytes(0)
        + encode_tags_region(ts)
}

/// The length of the blob that encodes `ts`. It must fit the 32-bit
/// `total_size` field for the encoding to be representable.
pub open spec fn assembled_size(ts: Seq<TagSpec>) -> int {
    8 + encode_tags_region(ts).len() as int
}

/// The blob header is consistent with the byte region it heads: the region
/// holds at least the 8-byte header, and the header's `total_size` field
/// equals the region's length. All offset arithmetic of the decoder depends
/// on this, so a violation is a fatal structural error.
pub open spec fn blob_header_wf(b: Seq<u8>) -> bool {
    &&& b.len() >= 8
    &&& spec_u32_from_le_bytes(b.subrange(0, 4)) == b.len()
}

/// Basic facts about rounding up to a multiple of 8.
pub proof fn lemma_align8(n: int)
    requires
        n >= 0,
    ensures
        n <= spec_align8(n) < n + 8,
        spec_align8(n) % 8 == 0,
        n % 8 == 0 ==> spec_align8(n) == n,
{
}

/// The padded form of `s` is `s` followed by zeros, with 8-aligned length.
pub proof fn lemma_pad8(s: Seq<u8>)
    ensures
        pad8(s).len() == spec_align8(s.len() as int),
        forall|i: int| 0 <= i < s.len() ==> pad8(s)[i] == s[i],
        forall|i: int| s.len() <= i < pad8(s).len() ==> pad8(s)[i] == 0u8,
{
    lemma_align8(s.len() as int);
}

/// An encoded tag region always holds at least the 8-byte terminator, and
/// its length is a multiple of 8, so consecutive tags start 8-aligned.
pub proof fn lemma_encode_tags_region_len(ts: Seq<TagSpec>)
    ensures
        encode_tags_region(ts).len() >= 8,
        encode_tags_region(ts).len() % 8 == 0,
    decreases ts.len(),
{
    lemma_auto_spec_u32_to_from_le_bytes();
    if ts.len() == 0 {
    } else {
        lemma_pad8(encode_tag(ts[0]));
        lemma_align8(encode_tag(ts[0]).len() as int);
        lemma_encode_tags_region_len(ts.drop_first());
    }
}

/// The round-trip theorem for the tag region: decoding the region that
/// encodes a list of well-formed logical tags yields exactly that list, in
/// order, with byte-identical bodies -- whatever the type codes are, known
/// to a consumer or not.
pub proof fn lemma_parse_encoded_tags(ts: Seq<TagSpec>)
    requires
        forall|i: int| 0 <= i < ts.len() ==> tag_spec_wf(#[trigger] ts[i]),
    ensures
        parse_tags(encode_tags_region(ts)) == Some(ts),
    decreases ts.len(),
{
    lemma_auto_spec_u32_to_from_le_bytes();
    if ts.len() == 0 {
        let r = terminator_bytes();
        assert(r.subrange(0, 4) =~= spec_u32_to_le_bytes(0));
        assert(r.subrange(4, 8) =~= spec_u32_to_le_bytes(8));
        assert(step_is_end(r));
        assert(ts =~= Seq::<TagSpec>::empty());
    } else {
        let t = ts[0];
        assert(tag_spec_wf(t));
        let enc = encode_tag(t);
        let size: int = 8 + t.body.len() as int;
        assert(enc.len() == size);
        let padded = pad8(enc);
        let rest = encode_tags_region(ts.drop_first());
        let r = encode_tags_region(ts);
        assert(r == padded + rest);
        lemma_pad8(enc);
        lemma_align8(size);
        lemma_encode_tags_region_len(ts.drop_first());
        assert(r.subrange(0, 4) =~= spec_u32_to_le_bytes(t.typ));
        assert(head_typ(r) == t.typ);
        assert(r.subrange(4, 8) =~= spec_u32_to_le_bytes((size as u32)));
        assert(head_size(r) == size);
        assert(step_is_tag(r));
        assert(step_tag(r).body =~= t.body);
        assert(step_tag(r) == t);
        assert(step_advance(r) == padded.len());
        assert(r.skip(step_advance(r)) =~= rest);
        lemma_parse_encoded_tags(ts.drop_first());
        assert(seq![t] + ts.drop_first() =~= ts);
    }
}

/// The round-trip theorem for the whole blob: the assembled blob carries its
/// own length in its header, and the tag region that follows the header
/// decodes to exactly the tags that were assembled.
pub proof fn lemma_information_round_trip(ts: Seq<TagSpec>)
    requires
        forall|i: int| 0 <= i < ts.len() ==> tag_spec_wf(#[trigger] ts[i]),
        assembled_size(ts) <= u32::MAX,
    ensures
        ({
            let blob = assemble_spec(ts);
            &&& blob.len() == assembled_size(ts)
            &&& blob.len() >= 16
            &&& spec_u32_from_le_bytes(blob.subrange(0, 4)) == blob.len()
            &&& parse_tags(blob.skip(8)) == Some(ts)
        }),
{
    lemma_auto_spec_u32_to_from_le_bytes();
    lemma_encode_tags_region_len(ts);
    lemma_parse_encoded_tags(ts);
    let region = encode_tags_region(ts);
    let blob = assemble_spec(ts);
    assert(blob.len() == 8 + region.len());
    assert(blob.subrange(0, 4) =~= spec_u32_to_le_bytes((8 + region.len()) as u32));
    assert(blob.skip(8) =~= region);
}

/// The unknown-tag tolerance law: a blob carrying a tag with an
/// unrecognized type code but a valid size still decodes in full -- the tags
/// before and after it are reached and recovered, and the unknown tag is
/// yielded like any other. The decoder never filters by type code, so
/// nothing here distinguishes recognized codes from unrecognized ones.
pub proof fn lemma_unknown_tag_tolerance(
    before: Seq<TagSpec>,
    unknown: TagSpec,
    after: Seq<TagSpec>,
)
    requires
        forall|i: int| 0 <= i < before.len() ==> tag_spec_wf(#[trigger] before[i]),
        forall|i: int| 0 <= i < after.len() ==> tag_spec_wf(#[trigger] after[i]),
        tag_spec_wf(unknown),
    ensures
        parse_tags(encode_tags_region(before + seq![unknown] + after)) == Some(
            before + seq![unknown] + after,
        ),
{
    let all = before + seq![unknown] + after;
    assert forall|i: int| 0 <= i < all.len() implies tag_spec_wf(#[trigger] all[i]) by {
        if i < before.len() {
            assert(all[i] == before[i]);
        } else if i == before.len() {
            assert(all[i] == unknown);
        } else {
            assert(all[i] == after[i - before.len() - 1]);
        }
    }
    lemma_parse_encoded_tags(all);
}

/// The bounds-safety law for the blob header: a buffer holding one byte
/// less than the header's `total_size` claims is rejected as structurally
/// invalid, because the claimed size no longer matches the region.
pub proof fn lemma_truncated_blob_rejected(ts: Seq<TagSpec>)
    requires
        forall|i: int| 0 <= i < ts.len() ==> tag_spec_wf(#[trigger] ts[i]),
        assembled_size(ts) <= u32::MAX,
    ensures
        !blob_header_wf(assemble_spec(ts).take(assemble_spec(ts).len() - 1)),
{
    lemma_information_round_trip(ts);
    let blob = assemble_spec(ts);
    let cut = blob.take(blob.len() - 1);
    assert(cut.subrange(0, 4) =~= blob.subrange(0, 4));
    assert(spec_u32_from_le_bytes(cut.subrange(0, 4)) == blob.len());
    assert(cut.len() != blob.len());
}

} // verus!
