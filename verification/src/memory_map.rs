//! The memory map tags: the legacy BIOS memory map (a fixed 24-byte entry
//! layout behind a runtime-declared entry size), the basic lower/upper
//! memory information tag, and the EFI memory map (40-byte nominal
//! descriptors behind a firmware-chosen descriptor size that may be larger).
//! Both array tags index strictly by the declared stride, never by the
//! nominal entry size.

use crate::builder::TagBytes;
use crate::cursor::ByteCursor;
use crate::model::TagSpec;
use crate::stream::TagView;
use crate::stride::{lemma_pack_strided_push, pack_strided, StrideArray};
use crate::{StructuralError, TAG_TYPE_BASIC_MEMINFO, TAG_TYPE_EFI_BS, TAG_TYPE_EFI_MMAP,
    TAG_TYPE_MMAP};
use vstd::bytes::{lemma_auto_spec_u32_to_from_le_bytes, lemma_auto_spec_u64_to_from_le_bytes,
    spec_u32_from_le_bytes, spec_u32_to_le_bytes, spec_u64_from_le_bytes, spec_u64_to_le_bytes,
    u32_to_le_bytes, u64_to_le_bytes};
use vstd::prelude::*;
use vstd::slice::slice_to_vec;

verus! {

/// The reported use of a memory region, as the legacy memory map declares
/// it.
#[derive(Clone, Copy, Debug, PartialEq, Eq, Structural)]
pub enum MemoryAreaType {
    /// Available memory free to be used by the OS.
    Available,
    /// A reserved area that must not be used.
    Reserved,
    /// Usable memory holding ACPI information.
    AcpiAvailable,
    /// Reserved memory which needs to be preserved on hibernation.
    ReservedHibernate,
    /// Memory occupied by defective RAM modules.
    Defective,
}

/// The on-wire code of a memory area type.
pub open spec fn area_type_code(t: MemoryAreaType) -> u32 {
    match t {
        MemoryAreaType::Available => 1,
        MemoryAreaType::Reserved => 2,
        MemoryAreaType::AcpiAvailable => 3,
        MemoryAreaType::ReservedHibernate => 4,
        MemoryAreaType::Defective => 5,
    }
}

/// The memory area type a code stands for. Codes outside the five known
/// ones are treated as reserved memory: the safe reading for a region the
/// producer did not mark usable.
pub open spec fn area_type_of_code(c: u32) -> MemoryAreaType {
    if c == 1 {
        MemoryAreaType::Available
    } else if c == 3 {
        MemoryAreaType::AcpiAvailable
    } else if c == 4 {
        MemoryAreaType::ReservedHibernate
    } else if c == 5 {
        MemoryAreaType::Defective
    } else {
        MemoryAreaType::Reserved
    }
}

impl MemoryAreaType {
    /// The on-wire code of this type.
    pub fn val(&self) -> (r: u32)
        ensures
            r == area_type_code(*self),
    {
        match self {
            MemoryAreaType::Available => 1,
            MemoryAreaType::Reserved => 2,
            MemoryAreaType::AcpiAvailable => 3,
            MemoryAreaType::ReservedHibernate => 4,
            MemoryAreaType::Defective => 5,
        }
    }
}

/// One entry of the legacy memory map: a base address, a length, and the
/// declared use of the region. The raw type code is kept as decoded, so an
/// unknown code survives a round trip unchanged.
#[derive(Clone, Copy, Debug, PartialEq, Eq, Structural)]
pub struct MemoryArea {
    base_addr: u64,
    length: u64,
    typ_code: u32,
}

impl MemoryArea {
    /// The start address of the region.
    pub closed spec fn base_spec(self) -> u64 {
        self.base_addr
    }

    /// The length of the region in bytes.
    pub closed spec fn length_spec(self) -> u64 {
        self.length
    }

    /// The raw on-wire type code of the region.
    pub closed spec fn typ_code_spec(self) -> u32 {
        self.typ_code
    }

    /// Creates a memory area entry.
    pub fn new(base_addr: u64, length: u64, typ: MemoryAreaType) -> (r: Self)
        ensures
            r.base_spec() == base_addr,
            r.length_spec() == length,
            r.typ_code_spec() == area_type_code(typ),
    {
        MemoryArea { base_addr, length, typ_code: typ.val() }
    }

    /// The start address of the memory region.
    pub fn start_address(&self) -> (r: u64)
        ensures
            r == self.base_spec(),
    {
        self.base_addr
    }

    /// The end address of the memory region: its start plus its size. The
    /// region must not wrap past the end of the address space.
    pub fn end_address(&self) -> (r: u64)
        requires
            self.base_spec() + self.length_spec() <= u64::MAX,
        ensures
            r == self.base_spec() + self.length_spec(),
    {
        self.base_addr + self.length
    }

    /// The size, in bytes, of the memory region.
    pub fn size(&self) -> (r: u64)
        ensures
            r == self.length_spec(),
    {
        self.length
    }

    /// The type of the memory region. An unrecognized code reads as
    /// reserved memory.
    pub fn typ(&self) -> (r: MemoryAreaType)
        ensures
            r == area_type_of_code(self.typ_code_spec()),
    {
        if self.typ_code == 1 {
            MemoryAreaType::Available
        } else if self.typ_code == 3 {
            MemoryAreaType::AcpiAvailable
        } else if self.typ_code == 4 {
            MemoryAreaType::ReservedHibernate
        } else if self.typ_code == 5 {
            MemoryAreaType::Defective
        } else {
            MemoryAreaType::Reserved
        }
    }
}

/// The 24 on-wire bytes of one memory map entry: base address, length, type
/// code, and a reserved word written as zero.
pub open spec fn area_bytes(a: MemoryArea) -> Seq<u8> {
    spec_u64_to_le_bytes(a.base_spec()) + spec_u64_to_le_bytes(a.length_spec())
        + spec_u32_to_le_bytes(a.typ_code_spec()) + spec_u32_to_le_bytes(0)
}

/// The memory map entry that the first 24 bytes of a slot carry. The
/// reserved word is not part of the entry.
pub closed spec fn area_of_bytes(w: Seq<u8>) -> MemoryArea
    recommends
        w.len() >= 24,
{
    MemoryArea {
        base_addr: spec_u64_from_le_bytes(w.subrange(0, 8)),
        length: spec_u64_from_le_bytes(w.subrange(8, 16)),
        typ_code: spec_u32_from_le_bytes(w.subrange(16, 20)),
    }
}

/// What each field of a decoded entry is, in terms of the window's bytes.
pub broadcast proof fn lemma_area_of_bytes(w: Seq<u8>)
    ensures
        (#[trigger] area_of_bytes(w)).base_spec() == spec_u64_from_le_bytes(w.subrange(0, 8)),
        area_of_bytes(w).length_spec() == spec_u64_from_le_bytes(w.subrange(8, 16)),
        area_of_bytes(w).typ_code_spec() == spec_u32_from_le_bytes(w.subrange(16, 20)),
{
}

/// Decoding the bytes that encode an entry gives the entry back.
pub proof fn lemma_area_round_trip(a: MemoryArea)
    ensures
        area_bytes(a).len() == 24,
        area_of_bytes(area_bytes(a)) == a,
{
    lemma_auto_spec_u32_to_from_le_bytes();
    lemma_auto_spec_u64_to_from_le_bytes();
    let w = area_bytes(a);
    assert(w.subrange(0, 8) =~= spec_u64_to_le_bytes(a.base_spec()));
    assert(w.subrange(8, 16) =~= spec_u64_to_le_bytes(a.length_spec()));
    assert(w.subrange(16, 20) =~= spec_u32_to_le_bytes(a.typ_code_spec()));
}

/// Serializes one memory map entry.
fn encode_area(a: &MemoryArea) -> (r: Vec<u8>)
    ensures
        r@ == area_bytes(*a),
        r@.len() == 24,
{
    let mut v = u64_to_le_bytes(a.base_addr);
    let mut length_bytes = u64_to_le_bytes(a.length);
    v.append(&mut length_bytes);
    let mut typ_bytes = u32_to_le_bytes(a.typ_code);
    v.append(&mut typ_bytes);
    let mut reserved = u32_to_le_bytes(0);
    v.append(&mut reserved);
    proof {
        assert(v@ =~= area_bytes(*a));
        lemma_area_round_trip(*a);
    }
    v
}

/// Reads the entry at the start of a 24-byte (or longer) window.
fn decode_area(w: &[u8]) -> (r: MemoryArea)
    requires
        w@.len() >= 24,
    ensures
        r == area_of_bytes(w@),
{
    let mut cur = ByteCursor::new(w);
    let base_addr = cur.read_u64();
    let length = cur.read_u64();
    let typ_code = cur.read_u32();
    MemoryArea { base_addr, length, typ_code }
}

/// The memory areas of `s` whose declared type is available memory.
pub open spec fn available_of(s: Seq<MemoryArea>) -> Seq<MemoryArea>
    decreases s.len(),
{
    if s.len() == 0 {
        Seq::empty()
    } else if s[0].typ_code_spec() == 1 {
        seq![s[0]] + available_of(s.drop_first())
    } else {
        available_of(s.drop_first())
    }
}

/// Appending an entry appends it to the available selection exactly when it
/// is available.
pub proof fn lemma_available_push(s: Seq<MemoryArea>, a: MemoryArea)
    ensures
        available_of(s.push(a)) == (if a.typ_code_spec() == 1 {
            available_of(s).push(a)
        } else {
            available_of(s)
        }),
    decreases s.len(),
{
    assert(s.push(a)[0] == s.push(a).first());
    if s.len() == 0 {
        assert(s.push(a)[0] == a);
        assert(s.push(a).drop_first() =~= Seq::<MemoryArea>::empty());
        assert(available_of(s.push(a).drop_first()) =~= Seq::<MemoryArea>::empty());
        assert(available_of(s) =~= Seq::<MemoryArea>::empty());
        if a.typ_code_spec() == 1 {
            assert(available_of(s.push(a)) == seq![a] + available_of(s.push(a).drop_first()));
            assert(seq![a] + Seq::<MemoryArea>::empty() =~= available_of(s).push(a));
        }
    } else {
        assert(s.push(a)[0] == s[0]);
        assert(s.push(a).drop_first() =~= s.drop_first().push(a));
        lemma_available_push(s.drop_first(), a);
        let b = available_of(s.drop_first());
        assert(available_of(s.push(a).drop_first()) == available_of(s.drop_first().push(a)));
        if a.typ_code_spec() == 1 {
            if s[0].typ_code_spec() == 1 {
                assert(available_of(s.push(a)) == seq![s[0]] + b.push(a));
                assert(available_of(s) == seq![s[0]] + b);
                assert(seq![s[0]] + b.push(a) =~= (seq![s[0]] + b).push(a));
            }
        }
    }
}

/// The legacy memory map tag: a version word and entries packed at a
/// runtime-declared entry size of at least the 24-byte nominal entry.
pub struct MemoryMapTag {
    entry_version: u32,
    entries: StrideArray,
}

impl MemoryMapTag {
    /// Entries are 24 bytes of data behind an entry size that fits the
    /// 32-bit field, and the whole tag fits the 32-bit size field.
    #[verifier::type_invariant]
    pub closed spec fn inv(self) -> bool {
        &&& self.entries.nominal_spec() == 24
        &&& self.entries.stride_spec() <= u32::MAX
        &&& 16 + self.entries.bytes_spec().len() <= u32::MAX
    }

    /// The declared distance between consecutive entries.
    pub closed spec fn entry_size_spec(self) -> int {
        self.entries.stride_spec()
    }

    /// The declared format version of the entries.
    pub closed spec fn entry_version_spec(self) -> u32 {
        self.entry_version
    }

    /// The raw bytes of the entry region.
    pub closed spec fn elems_spec(self) -> Seq<u8> {
        self.entries.bytes_spec()
    }

    /// How many entries the tag carries.
    pub closed spec fn count_spec(self) -> int {
        self.entries.count_spec()
    }

    /// The decoded entries, in on-wire order.
    pub closed spec fn areas_spec(self) -> Seq<MemoryArea> {
        Seq::new(self.entries.count_spec() as nat, |i: int| area_of_bytes(self.entries.window_spec(i)))
    }

    /// The body bytes of the tag: entry size, version, then the entries.
    pub open spec fn body_spec(self) -> Seq<u8> {
        spec_u32_to_le_bytes(self.entry_size_spec() as u32) + spec_u32_to_le_bytes(
            self.entry_version_spec(),
        ) + self.elems_spec()
    }

    /// The logical tag this memory map stands for.
    pub open spec fn tag_spec(self) -> TagSpec {
        TagSpec { typ: TAG_TYPE_MMAP, body: self.body_spec() }
    }

    /// Builds a memory map tag from entries, packed at the nominal entry
    /// size of 24 bytes, with format version zero. The entries must leave
    /// the tag within the 32-bit size field.
    pub fn new(areas: &[MemoryArea]) -> (r: Self)
        requires
            16 + areas@.len() * 24 <= u32::MAX,
        ensures
            r.entry_size_spec() == 24,
            r.entry_version_spec() == 0,
            r.count_spec() == areas@.len(),
            r.areas_spec() == areas@,
            r.elems_spec() == pack_strided(
                areas@.map_values(|a: MemoryArea| area_bytes(a)),
                24,
            ),
    {
        let n = areas.len();
        let ghost ab = areas@.map_values(|a: MemoryArea| area_bytes(a));
        let mut entries = StrideArray::empty(24, 24);
        let mut i: usize = 0;
        proof {
            assert(entries.bytes_spec() =~= pack_strided(ab.take(0), 24));
        }
        while i < n
            invariant
                0 <= i <= n,
                n == areas@.len(),
                ab == areas@.map_values(|a: MemoryArea| area_bytes(a)),
                16 + n * 24 <= u32::MAX,
                entries.stride_spec() == 24,
                entries.nominal_spec() == 24,
                entries.count_spec() == i,
                entries.bytes_spec().len() == i * 24,
                entries.bytes_spec() == pack_strided(ab.take(i as int), 24),
                forall|j: int|
                    0 <= j < i ==> area_of_bytes(#[trigger] entries.window_spec(j)) == areas@[j],
            decreases n - i,
        {
            let area = vstd::slice::slice_index_get(areas, i);
            let encoded = encode_area(area);
            proof {
                lemma_area_round_trip(*area);
            }
            entries.push_element(encoded.as_slice());
            proof {
                assert((i + 1) * 24 == i * 24 + 24) by (nonlinear_arith);
                lemma_pack_strided_push(ab.take(i as int), ab[i as int], 24);
                assert(ab.take(i as int).push(ab[i as int]) =~= ab.take(i + 1));
            }
            i = i + 1;
        }
        proof {
            assert(i * 24 <= n * 24) by (nonlinear_arith)
                requires
                    i <= n,
            ;
            assert(ab.take(n as int) =~= ab);
        }
        let r = MemoryMapTag { entry_version: 0, entries };
        proof {
            assert(r.areas_spec() =~= areas@);
        }
        r
    }

    /// Decodes a tag view as a memory map tag. Fails exactly when the view
    /// has the wrong type code, cannot fit a tag's size field, lacks the two
    /// leading words, declares an entry size below the 24-byte nominal
    /// entry, or holds an entry region that is not a whole number of
    /// entries.
    pub fn from_view(tv: &TagView) -> (r: Result<Self, StructuralError>)
        ensures
            r is Ok <==> ({
                let es = spec_u32_from_le_bytes(tv@.body.subrange(0, 4)) as int;
                &&& tv@.typ == TAG_TYPE_MMAP
                &&& tv@.body.len() + 8 <= u32::MAX
                &&& tv@.body.len() >= 8
                &&& es >= 24
                &&& (tv@.body.len() - 8) as int % es == 0
            }),
            match r {
                Ok(t) => {
                    &&& t.entry_size_spec() == spec_u32_from_le_bytes(tv@.body.subrange(0, 4))
                    &&& t.entry_version_spec() == spec_u32_from_le_bytes(tv@.body.subrange(4, 8))
                    &&& t.elems_spec() == tv@.body.skip(8)
                    &&& t.count_spec() == (tv@.body.len() - 8) as int / (spec_u32_from_le_bytes(
                        tv@.body.subrange(0, 4),
                    ) as int)
                    &&& t.areas_spec().len() == t.count_spec()
                    &&& t.tag_spec() == tv@
                },
                Err(e) => {
                    let es = spec_u32_from_le_bytes(tv@.body.subrange(0, 4)) as int;
                    &&& e == (if tv@.typ != TAG_TYPE_MMAP {
                        StructuralError::TypeMismatch
                    } else if tv@.body.len() + 8 > u32::MAX {
                        StructuralError::TooLarge
                    } else if tv@.body.len() < 8 {
                        StructuralError::InvalidBody
                    } else if es < 24 {
                        StructuralError::InvalidStride
                    } else {
                        StructuralError::StrideMismatch
                    })
                    &&& (tv@.typ != TAG_TYPE_MMAP || tv@.body.len() + 8 > u32::MAX
                        || tv@.body.len() < 8 || es < 24 || (tv@.body.len() - 8) as int % es != 0)
                },
            },
    {
        if tv.typ != TAG_TYPE_MMAP {
            return Err(StructuralError::TypeMismatch);
        }
        let n = tv.body.len();
        if n as u64 > (u32::MAX - 8) as u64 {
            return Err(StructuralError::TooLarge);
        }
        if n < 8 {
            return Err(StructuralError::InvalidBody);
        }
        let mut cur = ByteCursor::new(tv.body);
        let entry_size = cur.read_u32();
        let entry_version = cur.read_u32();
        let elems = slice_to_vec(cur.rest());
        if entry_size < 24 {
            return Err(StructuralError::InvalidStride);
        }
        match StrideArray::new(entry_size as usize, 24, elems) {
            Ok(entries) => {
                let t = MemoryMapTag { entry_version, entries };
                proof {
                    lemma_auto_spec_u32_to_from_le_bytes();
                    assert(t.body_spec() =~= tv@.body);
                    use_type_invariant(&t.entries);
                    t.entries.lemma_inv();
                }
                Ok(t)
            },
            Err(e) => Err(e),
        }
    }

    /// The declared entry size of the map.
    pub fn entry_size(&self) -> (r: u32)
        ensures
            r == self.entry_size_spec(),
    {
        proof {
            use_type_invariant(&*self);
        }
        self.entries.stride() as u32
    }

    /// The declared format version of the entries.
    pub fn entry_version(&self) -> (r: u32)
        ensures
            r == self.entry_version_spec(),
    {
        self.entry_version
    }

    /// How many entries the map holds.
    pub fn len(&self) -> (r: usize)
        ensures
            r == self.count_spec(),
    {
        self.entries.len()
    }

    /// The entry at index `i`, read from the first 24 bytes of its
    /// stride-indexed slot. Padding bytes beyond the nominal entry are never
    /// read.
    pub fn area(&self, i: usize) -> (r: MemoryArea)
        requires
            i < self.count_spec(),
        ensures
            r == self.areas_spec()[i as int],
    {
        proof {
            use_type_invariant(&*self);
        }
        let w = self.entries.window(i);
        decode_area(w)
    }

    /// Overwrites the entry at index `i` in place. The exclusive borrow of
    /// the map for the duration of the write is what permits the mutation:
    /// no other view of the map can exist while it happens.
    pub fn set_area(&mut self, i: usize, area: MemoryArea)
        requires
            i < old(self).count_spec(),
        ensures
            final(self).entry_size_spec() == old(self).entry_size_spec(),
            final(self).entry_version_spec() == old(self).entry_version_spec(),
            final(self).count_spec() == old(self).count_spec(),
            final(self).areas_spec() == old(self).areas_spec().update(i as int, area),
    {
        proof {
            use_type_invariant(&*self);
        }
        let encoded = encode_area(&area);
        let mut entries = StrideArray::empty(24, 24);
        core::mem::swap(&mut entries, &mut self.entries);
        entries.set_window(i, encoded.as_slice());
        core::mem::swap(&mut entries, &mut self.entries);
        proof {
            lemma_area_round_trip(area);
            assert(final(self).areas_spec() =~= old(self).areas_spec().update(i as int, area));
        }
    }

    /// An iterator over all entries, in on-wire order.
    pub fn memory_areas<'a>(&'a self) -> (r: MemoryAreaIter<'a>)
        ensures
            r.tag_spec_of() == *self,
            r.index_spec() == 0,
    {
        MemoryAreaIter { tag: self, idx: 0 }
    }

    /// All entries whose declared type is available memory, in on-wire
    /// order.
    pub fn available_memory_areas(&self) -> (r: Vec<MemoryArea>)
        ensures
            r@ == available_of(self.areas_spec()),
    {
        let ghost all = self.areas_spec();
        let n = self.len();
        let mut out: Vec<MemoryArea> = Vec::new();
        let mut i: usize = 0;
        proof {
            assert(all.take(0) =~= Seq::<MemoryArea>::empty());
            assert(out@ =~= available_of(all.take(0)));
        }
        while i < n
            invariant
                0 <= i <= n,
                n == self.count_spec(),
                all == self.areas_spec(),
                all.len() == n,
                out@ == available_of(all.take(i as int)),
            decreases n - i,
        {
            let a = self.area(i);
            if a.typ_code == 1 {
                out.push(a);
            }
            proof {
                lemma_available_push(all.take(i as int), all[i as int]);
                assert(all.take(i as int).push(all[i as int]) =~= all.take(i + 1));
            }
            i = i + 1;
        }
        proof {
            assert(all.take(n as int) =~= all);
        }
        out
    }

    /// The tag, serialized for the assembler.
    pub fn to_tag_bytes(&self) -> (r: TagBytes)
        ensures
            r@ == self.tag_spec(),
    {
        proof {
            use_type_invariant(&*self);
        }
        let mut body = u32_to_le_bytes(self.entries.stride() as u32);
        let mut version_bytes = u32_to_le_bytes(self.entry_version);
        body.append(&mut version_bytes);
        body.extend_from_slice(self.entries.as_bytes());
        proof {
            assert(body@ =~= self.body_spec());
        }
        TagBytes::new(TAG_TYPE_MMAP, body)
    }
}

/// An iterator over the entries of a memory map tag, in index order.
pub struct MemoryAreaIter<'a> {
    tag: &'a MemoryMapTag,
    idx: usize,
}

impl<'a> MemoryAreaIter<'a> {
    /// The map being iterated.
    pub closed spec fn tag_spec_of(self) -> MemoryMapTag {
        *self.tag
    }

    /// The index of the next entry to yield.
    pub closed spec fn index_spec(self) -> int {
        self.idx as int
    }

    /// Yields the entry at the current index, or `None` exactly when all
    /// entries have been yielded.
    pub fn next(&mut self) -> (r: Option<MemoryArea>)
        ensures
            final(self).tag_spec_of() == old(self).tag_spec_of(),
            match r {
                Some(a) => {
                    &&& old(self).index_spec() < old(self).tag_spec_of().count_spec()
                    &&& a == old(self).tag_spec_of().areas_spec()[old(self).index_spec()]
                    &&& final(self).index_spec() == old(self).index_spec() + 1
                },
                None => {
                    &&& old(self).index_spec() >= old(self).tag_spec_of().count_spec()
                    &&& final(self).index_spec() == old(self).index_spec()
                },
            },
    {
        if self.idx < self.tag.len() {
            let a = self.tag.area(self.idx);
            self.idx = self.idx + 1;
            Some(a)
        } else {
            None
        }
    }
}

/// The basic memory information tag: the amounts of (legacy) lower and
/// upper memory, in kilobytes.
#[derive(Clone, Copy, Debug, PartialEq, Eq, Structural)]
pub struct BasicMemoryInfoTag {
    memory_lower: u32,
    memory_upper: u32,
}

impl BasicMemoryInfoTag {
    /// The amount of lower memory, in kilobytes.
    pub closed spec fn lower_spec(self) -> u32 {
        self.memory_lower
    }

    /// The amount of upper memory, in kilobytes.
    pub closed spec fn upper_spec(self) -> u32 {
        self.memory_upper
    }

    /// The body bytes of the tag.
    pub open spec fn body_spec(self) -> Seq<u8> {
        spec_u32_to_le_bytes(self.lower_spec()) + spec_u32_to_le_bytes(self.upper_spec())
    }

    /// The logical tag this stands for.
    pub open spec fn tag_spec(self) -> TagSpec {
        TagSpec { typ: TAG_TYPE_BASIC_MEMINFO, body: self.body_spec() }
    }

    /// Builds the tag from the two amounts.
    pub fn new(memory_lower: u32, memory_upper: u32) -> (r: Self)
        ensures
            r.lower_spec() == memory_lower,
            r.upper_spec() == memory_upper,
    {
        BasicMemoryInfoTag { memory_lower, memory_upper }
    }

    /// Decodes a tag view as a basic memory information tag. Fails exactly
    /// when the view has the wrong type code or its body is not the two
    /// 4-byte amounts.
    pub fn from_view(tv: &TagView) -> (r: Result<Self, StructuralError>)
        ensures
            r is Ok <==> (tv@.typ == TAG_TYPE_BASIC_MEMINFO && tv@.body.len() == 8),
            match r {
                Ok(t) => {
                    &&& t.lower_spec() == spec_u32_from_le_bytes(tv@.body.subrange(0, 4))
                    &&& t.upper_spec() == spec_u32_from_le_bytes(tv@.body.subrange(4, 8))
                    &&& t.tag_spec() == tv@
                },
                Err(e) => {
                    &&& (tv@.typ != TAG_TYPE_BASIC_MEMINFO || tv@.body.len() != 8)
                    &&& e == (if tv@.typ != TAG_TYPE_BASIC_MEMINFO {
                        StructuralError::TypeMismatch
                    } else {
                        StructuralError::InvalidBody
                    })
                },
            },
    {
        if tv.typ != TAG_TYPE_BASIC_MEMINFO {
            return Err(StructuralError::TypeMismatch);
        }
        if tv.body.len() != 8 {
            return Err(StructuralError::InvalidBody);
        }
        let mut cur = ByteCursor::new(tv.body);
        let memory_lower = cur.read_u32();
        let memory_upper = cur.read_u32();
        let t = BasicMemoryInfoTag { memory_lower, memory_upper };
        proof {
            lemma_auto_spec_u32_to_from_le_bytes();
            assert(t.body_spec() =~= tv@.body);
        }
        Ok(t)
    }

    /// The amount of lower memory, in kilobytes.
    pub fn memory_lower(&self) -> (r: u32)
        ensures
            r == self.lower_spec(),
    {
        self.memory_lower
    }

    /// The amount of upper memory, in kilobytes.
    pub fn memory_upper(&self) -> (r: u32)
        ensures
            r == self.upper_spec(),
    {
        self.memory_upper
    }

    /// The tag, serialized for the assembler.
    pub fn to_tag_bytes(&self) -> (r: TagBytes)
        ensures
            r@ == self.tag_spec(),
    {
        let mut body = u32_to_le_bytes(self.memory_lower);
        let mut upper_bytes = u32_to_le_bytes(self.memory_upper);
        body.append(&mut upper_bytes);
        proof {
            assert(body@ =~= self.body_spec());
        }
        TagBytes::new(TAG_TYPE_BASIC_MEMINFO, body)
    }
}


/// The reported use of an EFI memory region, as the EFI specification
/// defines the descriptor type field.
#[derive(Clone, Copy, Debug, PartialEq, Eq, Structural)]
pub enum EFIMemoryAreaType {
    /// Unusable.
    EfiReservedMemoryType,
    /// Code area of a UEFI application.
    EfiLoaderCode,
    /// Data area of a UEFI application.
    EfiLoaderData,
    /// Code area of a UEFI Boot Service Driver.
    EfiBootServicesCode,
    /// Data area of a UEFI Boot Service Driver.
    EfiBootServicesData,
    /// Code area of a UEFI Runtime Driver.
    EfiRuntimeServicesCode,
    /// Data area of a UEFI Runtime Driver.
    EfiRuntimeServicesData,
    /// Available memory.
    EfiConventionalMemory,
    /// Memory with errors, treat as unusable.
    EfiUnusableMemory,
    /// Memory containing the ACPI tables.
    EfiACPIReclaimMemory,
    /// Memory reserved by firmware.
    EfiACPIMemoryNVS,
    /// Memory used by firmware for memory-mapped IO.
    EfiMemoryMappedIO,
    /// Memory used to translate memory cycles to IO cycles.
    EfiMemoryMappedIOPortSpace,
    /// Memory used by the processor.
    EfiPalCode,
    /// Available memory supporting byte-addressable non-volatility.
    EfiPersistentMemory,
    /// Unknown region type, treat as unusable.
    EfiUnknown,
}

/// The EFI memory type a descriptor type code stands for. Codes beyond the
/// defined range read as the explicit unknown type, never as one of the
/// known ones.
pub open spec fn efi_type_of_code(c: u32) -> EFIMemoryAreaType {
    if c == 0 {
        EFIMemoryAreaType::EfiReservedMemoryType
    } else if c == 1 {
        EFIMemoryAreaType::EfiLoaderCode
    } else if c == 2 {
        EFIMemoryAreaType::EfiLoaderData
    } else if c == 3 {
        EFIMemoryAreaType::EfiBootServicesCode
    } else if c == 4 {
        EFIMemoryAreaType::EfiBootServicesData
    } else if c == 5 {
        EFIMemoryAreaType::EfiRuntimeServicesCode
    } else if c == 6 {
        EFIMemoryAreaType::EfiRuntimeServicesData
    } else if c == 7 {
        EFIMemoryAreaType::EfiConventionalMemory
    } else if c == 8 {
        EFIMemoryAreaType::EfiUnusableMemory
    } else if c == 9 {
        EFIMemoryAreaType::EfiACPIReclaimMemory
    } else if c == 10 {
        EFIMemoryAreaType::EfiACPIMemoryNVS
    } else if c == 11 {
        EFIMemoryAreaType::EfiMemoryMappedIO
    } else if c == 12 {
        EFIMemoryAreaType::EfiMemoryMappedIOPortSpace
    } else if c == 13 {
        EFIMemoryAreaType::EfiPalCode
    } else if c == 14 {
        EFIMemoryAreaType::EfiPersistentMemory
    } else {
        EFIMemoryAreaType::EfiUnknown
    }
}

/// The descriptor type code of a known EFI memory type. The unknown type
/// has no code of its own, so it is left out.
pub open spec fn efi_type_code(t: EFIMemoryAreaType) -> u32
    recommends
        !(t is EfiUnknown),
{
    match t {
        EFIMemoryAreaType::EfiReservedMemoryType => 0,
        EFIMemoryAreaType::EfiLoaderCode => 1,
        EFIMemoryAreaType::EfiLoaderData => 2,
        EFIMemoryAreaType::EfiBootServicesCode => 3,
        EFIMemoryAreaType::EfiBootServicesData => 4,
        EFIMemoryAreaType::EfiRuntimeServicesCode => 5,
        EFIMemoryAreaType::EfiRuntimeServicesData => 6,
        EFIMemoryAreaType::EfiConventionalMemory => 7,
        EFIMemoryAreaType::EfiUnusableMemory => 8,
        EFIMemoryAreaType::EfiACPIReclaimMemory => 9,
        EFIMemoryAreaType::EfiACPIMemoryNVS => 10,
        EFIMemoryAreaType::EfiMemoryMappedIO => 11,
        EFIMemoryAreaType::EfiMemoryMappedIOPortSpace => 12,
        EFIMemoryAreaType::EfiPalCode => 13,
        EFIMemoryAreaType::EfiPersistentMemory => 14,
        EFIMemoryAreaType::EfiUnknown => 0,
    }
}

impl EFIMemoryAreaType {
    /// The descriptor type code of this type. The unknown type carries no
    /// code, so it is excluded.
    pub fn val(&self) -> (r: u32)
        requires
            !(*self is EfiUnknown),
        ensures
            r == efi_type_code(*self),
    {
        match self {
            EFIMemoryAreaType::EfiReservedMemoryType => 0,
            EFIMemoryAreaType::EfiLoaderCode => 1,
            EFIMemoryAreaType::EfiLoaderData => 2,
            EFIMemoryAreaType::EfiBootServicesCode => 3,
            EFIMemoryAreaType::EfiBootServicesData => 4,
            EFIMemoryAreaType::EfiRuntimeServicesCode => 5,
            EFIMemoryAreaType::EfiRuntimeServicesData => 6,
            EFIMemoryAreaType::EfiConventionalMemory => 7,
            EFIMemoryAreaType::EfiUnusableMemory => 8,
            EFIMemoryAreaType::EfiACPIReclaimMemory => 9,
            EFIMemoryAreaType::EfiACPIMemoryNVS => 10,
            EFIMemoryAreaType::EfiMemoryMappedIO => 11,
            EFIMemoryAreaType::EfiMemoryMappedIOPortSpace => 12,
            EFIMemoryAreaType::EfiPalCode => 13,
            EFIMemoryAreaType::EfiPersistentMemory => 14,
            EFIMemoryAreaType::EfiUnknown => 0,
        }
    }
}

/// One EFI boot memory map descriptor, as the firmware reports it. The raw
/// type code is kept as decoded, so an unknown code survives a round trip.
#[derive(Clone, Copy, Debug, PartialEq, Eq, Structural)]
pub struct EFIMemoryDesc {
    /// The raw descriptor type code.
    pub typ_code: u32,
    /// The physical address of the region.
    pub phys_addr: u64,
    /// The virtual address of the region.
    pub virt_addr: u64,
    /// The region size in 4 KiB pages.
    pub num_pages: u64,
    /// The region's attribute bits.
    pub attr: u64,
}

impl EFIMemoryDesc {
    /// The physical address of the memory region.
    pub fn physical_address(&self) -> (r: u64)
        ensures
            r == self.phys_addr,
    {
        self.phys_addr
    }

    /// The virtual address of the memory region.
    pub fn virtual_address(&self) -> (r: u64)
        ensures
            r == self.virt_addr,
    {
        self.virt_addr
    }

    /// The size in bytes of the memory region: its page count times the
    /// 4 KiB page size. The region must not reach past the address space.
    pub fn size(&self) -> (r: u64)
        requires
            self.num_pages * 4096 <= u64::MAX,
        ensures
            r == self.num_pages * 4096,
    {
        self.num_pages * 4096
    }

    /// The type of the memory region. An unrecognized code reads as the
    /// explicit unknown type, treated as unusable.
    pub fn typ(&self) -> (r: EFIMemoryAreaType)
        ensures
            r == efi_type_of_code(self.typ_code),
    {
        if self.typ_code == 0 {
            EFIMemoryAreaType::EfiReservedMemoryType
        } else if self.typ_code == 1 {
            EFIMemoryAreaType::EfiLoaderCode
        } else if self.typ_code == 2 {
            EFIMemoryAreaType::EfiLoaderData
        } else if self.typ_code == 3 {
            EFIMemoryAreaType::EfiBootServicesCode
        } else if self.typ_code == 4 {
            EFIMemoryAreaType::EfiBootServicesData
        } else if self.typ_code == 5 {
            EFIMemoryAreaType::EfiRuntimeServicesCode
        } else if self.typ_code == 6 {
            EFIMemoryAreaType::EfiRuntimeServicesData
        } else if self.typ_code == 7 {
            EFIMemoryAreaType::EfiConventionalMemory
        } else if self.typ_code == 8 {
            EFIMemoryAreaType::EfiUnusableMemory
        } else if self.typ_code == 9 {
            EFIMemoryAreaType::EfiACPIReclaimMemory
        } else if self.typ_code == 10 {
            EFIMemoryAreaType::EfiACPIMemoryNVS
        } else if self.typ_code == 11 {
            EFIMemoryAreaType::EfiMemoryMappedIO
        } else if self.typ_code == 12 {
            EFIMemoryAreaType::EfiMemoryMappedIOPortSpace
        } else if self.typ_code == 13 {
            EFIMemoryAreaType::EfiPalCode
        } else if self.typ_code == 14 {
            EFIMemoryAreaType::EfiPersistentMemory
        } else {
            EFIMemoryAreaType::EfiUnknown
        }
    }
}

impl Default for EFIMemoryDesc {
    /// A zeroed descriptor of the reserved (unusable) type.
    fn default() -> (r: Self)
        ensures
            r.typ_code == 0,
            r.phys_addr == 0,
            r.virt_addr == 0,
            r.num_pages == 0,
            r.attr == 0,
    {
        EFIMemoryDesc { typ_code: 0, phys_addr: 0, virt_addr: 0, num_pages: 0, attr: 0 }
    }
}

/// The 40 on-wire bytes of one EFI descriptor: type code, a reserved word
/// written as zero, then the physical address, virtual address, page count
/// and attributes.
pub open spec fn efi_desc_bytes(d: EFIMemoryDesc) -> Seq<u8> {
    spec_u32_to_le_bytes(d.typ_code) + spec_u32_to_le_bytes(0) + spec_u64_to_le_bytes(d.phys_addr)
        + spec_u64_to_le_bytes(d.virt_addr) + spec_u64_to_le_bytes(d.num_pages)
        + spec_u64_to_le_bytes(d.attr)
}

/// The EFI descriptor that the first 40 bytes of a slot carry.
pub open spec fn efi_desc_of_bytes(w: Seq<u8>) -> EFIMemoryDesc
    recommends
        w.len() >= 40,
{
    EFIMemoryDesc {
        typ_code: spec_u32_from_le_bytes(w.subrange(0, 4)),
        phys_addr: spec_u64_from_le_bytes(w.subrange(8, 16)),
        virt_addr: spec_u64_from_le_bytes(w.subrange(16, 24)),
        num_pages: spec_u64_from_le_bytes(w.subrange(24, 32)),
        attr: spec_u64_from_le_bytes(w.subrange(32, 40)),
    }
}

/// Decoding the bytes that encode a descriptor gives the descriptor back.
pub proof fn lemma_efi_desc_round_trip(d: EFIMemoryDesc)
    ensures
        efi_desc_bytes(d).len() == 40,
        efi_desc_of_bytes(efi_desc_bytes(d)) == d,
{
    lemma_auto_spec_u32_to_from_le_bytes();
    lemma_auto_spec_u64_to_from_le_bytes();
    let w = efi_desc_bytes(d);
    assert(w.subrange(0, 4) =~= spec_u32_to_le_bytes(d.typ_code));
    assert(w.subrange(8, 16) =~= spec_u64_to_le_bytes(d.phys_addr));
    assert(w.subrange(16, 24) =~= spec_u64_to_le_bytes(d.virt_addr));
    assert(w.subrange(24, 32) =~= spec_u64_to_le_bytes(d.num_pages));
    assert(w.subrange(32, 40) =~= spec_u64_to_le_bytes(d.attr));
}

/// Serializes one EFI descriptor.
fn encode_efi_desc(d: &EFIMemoryDesc) -> (r: Vec<u8>)
    ensures
        r@ == efi_desc_bytes(*d),
        r@.len() == 40,
{
    let mut v = u32_to_le_bytes(d.typ_code);
    let mut reserved = u32_to_le_bytes(0);
    v.append(&mut reserved);
    let mut phys = u64_to_le_bytes(d.phys_addr);
    v.append(&mut phys);
    let mut virt = u64_to_le_bytes(d.virt_addr);
    v.append(&mut virt);
    let mut pages = u64_to_le_bytes(d.num_pages);
    v.append(&mut pages);
    let mut attr = u64_to_le_bytes(d.attr);
    v.append(&mut attr);
    proof {
        assert(v@ =~= efi_desc_bytes(*d));
        lemma_efi_desc_round_trip(*d);
    }
    v
}

/// Reads the descriptor at the start of a 40-byte (or longer) window.
fn decode_efi_desc(w: &[u8]) -> (r: EFIMemoryDesc)
    requires
        w@.len() >= 40,
    ensures
        r == efi_desc_of_bytes(w@),
{
    let mut cur = ByteCursor::new(w);
    let typ_code = cur.read_u32();
    cur.skip(4);
    let phys_addr = cur.read_u64();
    let virt_addr = cur.read_u64();
    let num_pages = cur.read_u64();
    let attr = cur.read_u64();
    EFIMemoryDesc { typ_code, phys_addr, virt_addr, num_pages, attr }
}

/// The EFI memory map tag: the descriptor size and version the firmware
/// declared, and the descriptors packed at that size. The size the firmware
/// chooses may exceed the 40-byte nominal descriptor; indexing always goes
/// by the declared size.
pub struct EFIMemoryMapTag {
    desc_version: u32,
    descs: StrideArray,
}

impl EFIMemoryMapTag {
    /// Descriptors are 40 bytes of data behind a declared size that fits
    /// the 32-bit field, and the whole tag fits the 32-bit size field.
    #[verifier::type_invariant]
    pub closed spec fn inv(self) -> bool {
        &&& self.descs.nominal_spec() == 40
        &&& self.descs.stride_spec() <= u32::MAX
        &&& 16 + self.descs.bytes_spec().len() <= u32::MAX
    }

    /// The declared distance between consecutive descriptors.
    pub closed spec fn desc_size_spec(self) -> int {
        self.descs.stride_spec()
    }

    /// The declared descriptor format version.
    pub closed spec fn desc_version_spec(self) -> u32 {
        self.desc_version
    }

    /// The raw bytes of the descriptor region.
    pub closed spec fn elems_spec(self) -> Seq<u8> {
        self.descs.bytes_spec()
    }

    /// How many descriptors the tag carries.
    pub closed spec fn count_spec(self) -> int {
        self.descs.count_spec()
    }

    /// The decoded descriptors, in on-wire order.
    pub closed spec fn descs_spec(self) -> Seq<EFIMemoryDesc> {
        Seq::new(
            self.descs.count_spec() as nat,
            |i: int| efi_desc_of_bytes(self.descs.window_spec(i)),
        )
    }

    /// The body bytes of the tag: descriptor size, version, then the
    /// descriptor region.
    pub open spec fn body_spec(self) -> Seq<u8> {
        spec_u32_to_le_bytes(self.desc_size_spec() as u32) + spec_u32_to_le_bytes(
            self.desc_version_spec(),
        ) + self.elems_spec()
    }

    /// The logical tag this EFI memory map stands for.
    pub open spec fn tag_spec(self) -> TagSpec {
        TagSpec { typ: TAG_TYPE_EFI_MMAP, body: self.body_spec() }
    }

    /// Builds an EFI memory map tag with the given descriptors packed at
    /// the nominal 40-byte descriptor size, version 1.
    pub fn new(descs: &[EFIMemoryDesc]) -> (r: Self)
        requires
            16 + descs@.len() * 40 <= u32::MAX,
        ensures
            r.desc_size_spec() == 40,
            r.desc_version_spec() == 1,
            r.count_spec() == descs@.len(),
            r.descs_spec() == descs@,
            r.elems_spec() == pack_strided(
                descs@.map_values(|d: EFIMemoryDesc| efi_desc_bytes(d)),
                40,
            ),
    {
        EFIMemoryMapTag::new_with_desc_size(descs, 40)
    }

    /// Builds an EFI memory map tag with the given descriptors packed at an
    /// arbitrary declared descriptor size of at least the nominal 40 bytes:
    /// each slot carries the descriptor's bytes and zero padding up to the
    /// declared size, exactly as a firmware choosing a larger stride does.
    pub fn new_with_desc_size(descs: &[EFIMemoryDesc], desc_size: u32) -> (r: Self)
        requires
            desc_size >= 40,
            16 + descs@.len() * desc_size <= u32::MAX,
        ensures
            r.desc_size_spec() == desc_size,
            r.desc_version_spec() == 1,
            r.count_spec() == descs@.len(),
            r.descs_spec() == descs@,
            r.elems_spec() == pack_strided(
                descs@.map_values(|d: EFIMemoryDesc| efi_desc_bytes(d)),
                desc_size as int,
            ),
    {
        let n = descs.len();
        let ghost ds = desc_size as int;
        let ghost db = descs@.map_values(|d: EFIMemoryDesc| efi_desc_bytes(d));
        let mut entries = StrideArray::empty(desc_size as usize, 40);
        let mut i: usize = 0;
        proof {
            assert(entries.bytes_spec() =~= pack_strided(db.take(0), ds));
        }
        while i < n
            invariant
                0 <= i <= n,
                n == descs@.len(),
                ds == desc_size as int,
                db == descs@.map_values(|d: EFIMemoryDesc| efi_desc_bytes(d)),
                40 <= ds,
                16 + n * ds <= u32::MAX,
                entries.stride_spec() == ds,
                entries.nominal_spec() == 40,
                entries.count_spec() == i,
                entries.bytes_spec().len() == i * ds,
                entries.bytes_spec() == pack_strided(db.take(i as int), ds),
                forall|j: int|
                    0 <= j < i ==> efi_desc_of_bytes(#[trigger] entries.window_spec(j))
                        == descs@[j],
            decreases n - i,
        {
            let d = vstd::slice::slice_index_get(descs, i);
            let encoded = encode_efi_desc(d);
            proof {
                lemma_efi_desc_round_trip(*d);
            }
            entries.push_element(encoded.as_slice());
            proof {
                assert((i + 1) * ds == i * ds + ds) by (nonlinear_arith);
                lemma_pack_strided_push(db.take(i as int), db[i as int], ds);
                assert(db.take(i as int).push(db[i as int]) =~= db.take(i + 1));
            }
            i = i + 1;
        }
        proof {
            assert(i * ds <= n * ds) by (nonlinear_arith)
                requires
                    i <= n,
                    ds >= 0,
            ;
            assert(db.take(n as int) =~= db);
        }
        let r = EFIMemoryMapTag { desc_version: 1, descs: entries };
        proof {
            assert(r.descs_spec() =~= descs@);
        }
        r
    }

    /// Decodes a tag view as an EFI memory map tag. Fails exactly when the
    /// view has the wrong type code, cannot fit a tag's size field, lacks
    /// the two leading words, declares a descriptor size below the 40-byte
    /// nominal descriptor, or holds a descriptor region that is not a whole
    /// number of descriptors.
    pub fn from_view(tv: &TagView) -> (r: Result<Self, StructuralError>)
        ensures
            r is Ok <==> ({
                let ds = spec_u32_from_le_bytes(tv@.body.subrange(0, 4)) as int;
                &&& tv@.typ == TAG_TYPE_EFI_MMAP
                &&& tv@.body.len() + 8 <= u32::MAX
                &&& tv@.body.len() >= 8
                &&& ds >= 40
                &&& (tv@.body.len() - 8) as int % ds == 0
            }),
            match r {
                Ok(t) => {
                    &&& t.desc_size_spec() == spec_u32_from_le_bytes(tv@.body.subrange(0, 4))
                    &&& t.desc_version_spec() == spec_u32_from_le_bytes(tv@.body.subrange(4, 8))
                    &&& t.elems_spec() == tv@.body.skip(8)
                    &&& t.count_spec() == (tv@.body.len() - 8) as int / (spec_u32_from_le_bytes(
                        tv@.body.subrange(0, 4),
                    ) as int)
                    &&& t.descs_spec().len() == t.count_spec()
                    &&& t.tag_spec() == tv@
                },
                Err(e) => {
                    let ds = spec_u32_from_le_bytes(tv@.body.subrange(0, 4)) as int;
                    &&& e == (if tv@.typ != TAG_TYPE_EFI_MMAP {
                        StructuralError::TypeMismatch
                    } else if tv@.body.len() + 8 > u32::MAX {
                        StructuralError::TooLarge
                    } else if tv@.body.len() < 8 {
                        StructuralError::InvalidBody
                    } else if ds < 40 {
                        StructuralError::InvalidStride
                    } else {
                        StructuralError::StrideMismatch
                    })
                    &&& (tv@.typ != TAG_TYPE_EFI_MMAP || tv@.body.len() + 8 > u32::MAX
                        || tv@.body.len() < 8 || ds < 40 || (tv@.body.len() - 8) as int % ds != 0)
                },
            },
    {
        if tv.typ != TAG_TYPE_EFI_MMAP {
            return Err(StructuralError::TypeMismatch);
        }
        let n = tv.body.len();
        if n as u64 > (u32::MAX - 8) as u64 {
            return Err(StructuralError::TooLarge);
        }
        if n < 8 {
            return Err(StructuralError::InvalidBody);
        }
        let mut cur = ByteCursor::new(tv.body);
        let desc_size = cur.read_u32();
        let desc_version = cur.read_u32();
        let elems = slice_to_vec(cur.rest());
        if desc_size < 40 {
            return Err(StructuralError::InvalidStride);
        }
        match StrideArray::new(desc_size as usize, 40, elems) {
            Ok(descs) => {
                let t = EFIMemoryMapTag { desc_version, descs };
                proof {
                    lemma_auto_spec_u32_to_from_le_bytes();
                    assert(t.body_spec() =~= tv@.body);
                    use_type_invariant(&t.descs);
                    t.descs.lemma_inv();
                }
                Ok(t)
            },
            Err(e) => Err(e),
        }
    }

    /// The declared descriptor size.
    pub fn desc_size(&self) -> (r: u32)
        ensures
            r == self.desc_size_spec(),
    {
        proof {
            use_type_invariant(&*self);
        }
        self.descs.stride() as u32
    }

    /// The declared descriptor format version.
    pub fn desc_version(&self) -> (r: u32)
        ensures
            r == self.desc_version_spec(),
    {
        self.desc_version
    }

    /// How many descriptors the map holds.
    pub fn len(&self) -> (r: usize)
        ensures
            r == self.count_spec(),
    {
        self.descs.len()
    }

    /// The descriptor at index `i`, read from the first 40 bytes of its
    /// slot at `i * desc_size`. Bytes between the nominal descriptor and
    /// the declared size are firmware padding and are never read.
    pub fn desc(&self, i: usize) -> (r: EFIMemoryDesc)
        requires
            i < self.count_spec(),
        ensures
            r == self.descs_spec()[i as int],
    {
        proof {
            use_type_invariant(&*self);
        }
        let w = self.descs.window(i);
        decode_efi_desc(w)
    }

    /// Overwrites the descriptor at index `i` in place. The exclusive
    /// borrow of the map for the duration of the write is what permits the
    /// mutation.
    pub fn set_desc(&mut self, i: usize, d: EFIMemoryDesc)
        requires
            i < old(self).count_spec(),
        ensures
            final(self).desc_size_spec() == old(self).desc_size_spec(),
            final(self).desc_version_spec() == old(self).desc_version_spec(),
            final(self).count_spec() == old(self).count_spec(),
            final(self).descs_spec() == old(self).descs_spec().update(i as int, d),
    {
        proof {
            use_type_invariant(&*self);
        }
        let encoded = encode_efi_desc(&d);
        let mut descs = StrideArray::empty(40, 40);
        core::mem::swap(&mut descs, &mut self.descs);
        descs.set_window(i, encoded.as_slice());
        core::mem::swap(&mut descs, &mut self.descs);
        proof {
            lemma_efi_desc_round_trip(d);
            assert(final(self).descs_spec() =~= old(self).descs_spec().update(i as int, d));
        }
    }

    /// An iterator over all descriptors, in on-wire order. For UEFI the OS
    /// needs some non-available regions too, so nothing is filtered.
    pub fn memory_areas<'a>(&'a self) -> (r: EFIMemoryAreaIter<'a>)
        ensures
            r.tag_spec_of() == *self,
            r.index_spec() == 0,
    {
        EFIMemoryAreaIter { tag: self, idx: 0 }
    }

    /// The tag, serialized for the assembler.
    pub fn to_tag_bytes(&self) -> (r: TagBytes)
        ensures
            r@ == self.tag_spec(),
    {
        proof {
            use_type_invariant(&*self);
        }
        let mut body = u32_to_le_bytes(self.descs.stride() as u32);
        let mut version_bytes = u32_to_le_bytes(self.desc_version);
        body.append(&mut version_bytes);
        body.extend_from_slice(self.descs.as_bytes());
        proof {
            assert(body@ =~= self.body_spec());
        }
        TagBytes::new(TAG_TYPE_EFI_MMAP, body)
    }
}

/// An iterator over the descriptors of an EFI memory map tag, in index
/// order.
pub struct EFIMemoryAreaIter<'a> {
    tag: &'a EFIMemoryMapTag,
    idx: usize,
}

impl<'a> EFIMemoryAreaIter<'a> {
    /// The map being iterated.
    pub closed spec fn tag_spec_of(self) -> EFIMemoryMapTag {
        *self.tag
    }

    /// The index of the next descriptor to yield.
    pub closed spec fn index_spec(self) -> int {
        self.idx as int
    }

    /// Yields the descriptor at the current index, or `None` exactly when
    /// all descriptors have been yielded.
    pub fn next(&mut self) -> (r: Option<EFIMemoryDesc>)
        ensures
            final(self).tag_spec_of() == old(self).tag_spec_of(),
            match r {
                Some(d) => {
                    &&& old(self).index_spec() < old(self).tag_spec_of().count_spec()
                    &&& d == old(self).tag_spec_of().descs_spec()[old(self).index_spec()]
                    &&& final(self).index_spec() == old(self).index_spec() + 1
                },
                None => {
                    &&& old(self).index_spec() >= old(self).tag_spec_of().count_spec()
                    &&& final(self).index_spec() == old(self).index_spec()
                },
            },
    {
        if self.idx < self.tag.len() {
            let d = self.tag.desc(self.idx);
            self.idx = self.idx + 1;
            Some(d)
        } else {
            None
        }
    }
}

/// The tag that records that EFI boot services were not exited before
/// handing control to the kernel. It carries no body: its presence is the
/// information.
#[derive(Clone, Copy, Debug, PartialEq, Eq, Structural)]
pub struct EFIBootServicesNotExited {
}

impl EFIBootServicesNotExited {
    /// The logical tag this stands for: a bare header of its type code.
    pub open spec fn tag_spec(self) -> TagSpec {
        TagSpec { typ: TAG_TYPE_EFI_BS, body: Seq::empty() }
    }

    /// Builds the tag.
    pub fn new() -> (r: Self)
        ensures
            r == (EFIBootServicesNotExited {  }),
    {
        EFIBootServicesNotExited {  }
    }

    /// Decodes a tag view as this tag. Fails exactly when the view has the
    /// wrong type code or carries a body, which this tag never has.
    pub fn from_view(tv: &TagView) -> (r: Result<Self, StructuralError>)
        ensures
            r is Ok <==> (tv@.typ == TAG_TYPE_EFI_BS && tv@.body.len() == 0),
            match r {
                Ok(_) => true,
                Err(e) => {
                    &&& (tv@.typ != TAG_TYPE_EFI_BS || tv@.body.len() != 0)
                    &&& e == (if tv@.typ != TAG_TYPE_EFI_BS {
                        StructuralError::TypeMismatch
                    } else {
                        StructuralError::InvalidBody
                    })
                },
            },
    {
        if tv.typ != TAG_TYPE_EFI_BS {
            return Err(StructuralError::TypeMismatch);
        }
        if tv.body.len() != 0 {
            return Err(StructuralError::InvalidBody);
        }
        Ok(EFIBootServicesNotExited {  })
    }

    /// The tag, serialized for the assembler.
    pub fn to_tag_bytes(&self) -> (r: TagBytes)
        ensures
            r@ == self.tag_spec(),
    {
        let body: Vec<u8> = Vec::new();
        proof {
            assert(body@ =~= Seq::<u8>::empty());
        }
        TagBytes::new(TAG_TYPE_EFI_BS, body)
    }
}

impl Default for EFIBootServicesNotExited {
    /// The tag itself: it carries no data.
    fn default() -> (r: Self)
        ensures
            r == (EFIBootServicesNotExited {  }),
    {
        EFIBootServicesNotExited {  }
    }
}

} // verus!
