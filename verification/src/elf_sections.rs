//! The ELF section header table tag: a variable-stride array of section
//! headers in the 32-bit (40-byte) or 64-bit (64-byte) layout, as declared
//! by the tag's entry size. The tag's `shndx` field names one of the
//! array's own elements as the string table that holds every section's
//! name: that self-reference is resolved here explicitly, by indexing the
//! same array the tag exposes.

use crate::builder::TagBytes;
use crate::cursor::ByteCursor;
use crate::model::TagSpec;
use crate::stream::TagView;
use crate::stride::StrideArray;
use crate::text::decode_text;
use crate::{EncodingError, StructuralError, TAG_TYPE_ELF_SECTIONS};
use vstd::bytes::{lemma_auto_spec_u32_to_from_le_bytes, spec_u32_from_le_bytes,
    spec_u32_to_le_bytes, spec_u64_from_le_bytes, u32_to_le_bytes};
use vstd::prelude::*;
use vstd::slice::{slice_subrange, slice_to_vec};
use vstd::utf8::{decode_utf8, valid_utf8};

verus! {

/// The section contains data that should be writable during program
/// execution.
pub const ELF_SECTION_FLAG_WRITABLE: u64 = 0x1;

/// The section occupies memory during process execution.
pub const ELF_SECTION_FLAG_ALLOCATED: u64 = 0x2;

/// The section contains executable machine instructions.
pub const ELF_SECTION_FLAG_EXECUTABLE: u64 = 0x4;

/// The section types the table distinguishes.
#[derive(Clone, Copy, Debug, PartialEq, Eq, Structural)]
pub enum ElfSectionType {
    /// An inactive section header without an associated section.
    Unused,
    /// Information defined by the program.
    ProgramSection,
    /// A linker symbol table.
    LinkerSymbolTable,
    /// A string table.
    StringTable,
    /// Relocation entries with explicit addends.
    RelaRelocation,
    /// A symbol hash table.
    SymbolHashTable,
    /// Dynamic linking tables.
    DynamicLinkingTable,
    /// Information that marks the file in some way.
    Note,
    /// A section that occupies no space in the file.
    Uninitialized,
    /// Relocation entries without explicit addends.
    RelRelocation,
    /// Reserved, with unspecified semantics.
    Reserved,
    /// A dynamic loader symbol table.
    DynamicLoaderSymbolTable,
    /// Values reserved for environment-specific semantics.
    EnvironmentSpecific,
    /// Values reserved for processor-specific semantics.
    ProcessorSpecific,
}

/// The section type a raw type value stands for. Values outside every known
/// range read as unused, so such headers are skipped rather than misread.
pub open spec fn section_type_of(t: u32) -> ElfSectionType {
    if t == 1 {
        ElfSectionType::ProgramSection
    } else if t == 2 {
        ElfSectionType::LinkerSymbolTable
    } else if t == 3 {
        ElfSectionType::StringTable
    } else if t == 4 {
        ElfSectionType::RelaRelocation
    } else if t == 5 {
        ElfSectionType::SymbolHashTable
    } else if t == 6 {
        ElfSectionType::DynamicLinkingTable
    } else if t == 7 {
        ElfSectionType::Note
    } else if t == 8 {
        ElfSectionType::Uninitialized
    } else if t == 9 {
        ElfSectionType::RelRelocation
    } else if t == 10 {
        ElfSectionType::Reserved
    } else if t == 11 {
        ElfSectionType::DynamicLoaderSymbolTable
    } else if 0x6000_0000 <= t <= 0x6FFF_FFFF {
        ElfSectionType::EnvironmentSpecific
    } else if 0x7000_0000 <= t <= 0x7FFF_FFFF {
        ElfSectionType::ProcessorSpecific
    } else {
        ElfSectionType::Unused
    }
}

/// One decoded ELF section header, with the 32-bit layout's fields widened
/// so both layouts read the same way.
#[derive(Clone, Copy, Debug, PartialEq, Eq, Structural)]
pub struct ElfSection {
    name_index: u32,
    typ: u32,
    flags: u64,
    addr: u64,
    size: u64,
    addralign: u64,
}

impl ElfSection {
    /// The index of the section's name in the string table.
    pub closed spec fn name_index_spec(self) -> u32 {
        self.name_index
    }

    /// The raw section type value.
    pub closed spec fn typ_spec(self) -> u32 {
        self.typ
    }

    /// The raw section flags.
    pub closed spec fn flags_spec(self) -> u64 {
        self.flags
    }

    /// The section's load address.
    pub closed spec fn addr_spec(self) -> u64 {
        self.addr
    }

    /// The section's size in bytes.
    pub closed spec fn size_spec(self) -> u64 {
        self.size
    }

    /// The section's address alignment constraint.
    pub closed spec fn addralign_spec(self) -> u64 {
        self.addralign
    }

    /// The section type as an enum variant. An unknown raw value reads as
    /// unused.
    pub fn section_type(&self) -> (r: ElfSectionType)
        ensures
            r == section_type_of(self.typ_spec()),
    {
        if self.typ == 1 {
            ElfSectionType::ProgramSection
        } else if self.typ == 2 {
            ElfSectionType::LinkerSymbolTable
        } else if self.typ == 3 {
            ElfSectionType::StringTable
        } else if self.typ == 4 {
            ElfSectionType::RelaRelocation
        } else if self.typ == 5 {
            ElfSectionType::SymbolHashTable
        } else if self.typ == 6 {
            ElfSectionType::DynamicLinkingTable
        } else if self.typ == 7 {
            ElfSectionType::Note
        } else if self.typ == 8 {
            ElfSectionType::Uninitialized
        } else if self.typ == 9 {
            ElfSectionType::RelRelocation
        } else if self.typ == 10 {
            ElfSectionType::Reserved
        } else if self.typ == 11 {
            ElfSectionType::DynamicLoaderSymbolTable
        } else if 0x6000_0000 <= self.typ && self.typ <= 0x6FFF_FFFF {
            ElfSectionType::EnvironmentSpecific
        } else if 0x7000_0000 <= self.typ && self.typ <= 0x7FFF_FFFF {
            ElfSectionType::ProcessorSpecific
        } else {
            ElfSectionType::Unused
        }
    }

    /// The raw section type value.
    pub fn section_type_raw(&self) -> (r: u32)
        ensures
            r == self.typ_spec(),
    {
        self.typ
    }

    /// The physical start address of the section.
    pub fn start_address(&self) -> (r: u64)
        ensures
            r == self.addr_spec(),
    {
        self.addr
    }

    /// The physical end address of the section: its start plus its size.
    /// The section must not wrap past the end of the address space.
    pub fn end_address(&self) -> (r: u64)
        requires
            self.addr_spec() + self.size_spec() <= u64::MAX,
        ensures
            r == self.addr_spec() + self.size_spec(),
    {
        self.addr + self.size
    }

    /// The section's size in bytes.
    pub fn size(&self) -> (r: u64)
        ensures
            r == self.size_spec(),
    {
        self.size
    }

    /// The section's address alignment constraint.
    pub fn addralign(&self) -> (r: u64)
        ensures
            r == self.addralign_spec(),
    {
        self.addralign
    }

    /// The section's flags, truncated to the defined flag bits.
    pub fn flags(&self) -> (r: u64)
        ensures
            r == self.flags_spec() & 0x7,
    {
        self.flags & 0x7
    }

    /// Whether the section occupies memory during execution.
    pub fn is_allocated(&self) -> (r: bool)
        ensures
            r == (self.flags_spec() & ELF_SECTION_FLAG_ALLOCATED != 0),
    {
        self.flags & ELF_SECTION_FLAG_ALLOCATED != 0
    }

    /// Reads the section's name out of the string table's bytes: the NUL-
    /// terminated string at the section's name index. Fails exactly when
    /// the index lies outside the table, no NUL follows it, or the bytes
    /// before the NUL are not valid UTF-8.
    pub fn name<'t>(&self, string_table: &'t [u8]) -> (r: Result<&'t str, EncodingError>)
        ensures
            ({
                let t = string_table@;
                let start = self.name_index_spec() as int;
                match r {
                    Ok(s) => {
                        &&& start <= t.len()
                        &&& first_nul(t, start) < t.len()
                        &&& valid_utf8(t.subrange(start, first_nul(t, start)))
                        &&& s@ == decode_utf8(t.subrange(start, first_nul(t, start)))
                    },
                    Err(e) => start > t.len() || first_nul(t, start) == t.len() || !valid_utf8(
                        t.subrange(start, first_nul(t, start)),
                    ),
                }
            }),
    {
        let ghost t = string_table@;
        let len = string_table.len();
        if self.name_index as usize > len {
            return Err(EncodingError);
        }
        let start = self.name_index as usize;
        let mut end = start;
        while end < len && string_table[end] != 0
            invariant
                start <= end <= len,
                len == t.len(),
                t == string_table@,
                first_nul(t, start as int) == first_nul(t, end as int),
            decreases len - end,
        {
            end = end + 1;
        }
        if end == len {
            return Err(EncodingError);
        }
        decode_text(slice_subrange(string_table, start, end))
    }
}

/// The offset of the first NUL byte of `t` at or after `i`, or the length
/// of `t` when no NUL follows.
pub open spec fn first_nul(t: Seq<u8>, i: int) -> int
    decreases t.len() - i,
    when 0 <= i <= t.len()
{
    if i >= t.len() {
        t.len() as int
    } else if t[i] == 0 {
        i
    } else {
        first_nul(t, i + 1)
    }
}

/// The section header carried by the 40-byte 32-bit layout, fields widened.
pub closed spec fn section_of_bytes32(w: Seq<u8>) -> ElfSection
    recommends
        w.len() >= 40,
{
    ElfSection {
        name_index: spec_u32_from_le_bytes(w.subrange(0, 4)),
        typ: spec_u32_from_le_bytes(w.subrange(4, 8)),
        flags: spec_u32_from_le_bytes(w.subrange(8, 12)) as u64,
        addr: spec_u32_from_le_bytes(w.subrange(12, 16)) as u64,
        size: spec_u32_from_le_bytes(w.subrange(20, 24)) as u64,
        addralign: spec_u32_from_le_bytes(w.subrange(32, 36)) as u64,
    }
}

/// The section header carried by the 64-byte 64-bit layout.
pub closed spec fn section_of_bytes64(w: Seq<u8>) -> ElfSection
    recommends
        w.len() >= 64,
{
    ElfSection {
        name_index: spec_u32_from_le_bytes(w.subrange(0, 4)),
        typ: spec_u32_from_le_bytes(w.subrange(4, 8)),
        flags: spec_u64_from_le_bytes(w.subrange(8, 16)),
        addr: spec_u64_from_le_bytes(w.subrange(16, 24)),
        size: spec_u64_from_le_bytes(w.subrange(32, 40)),
        addralign: spec_u64_from_le_bytes(w.subrange(48, 56)),
    }
}

/// What each field of a section decoded from the 32-bit layout is, in
/// terms of the entry's bytes.
pub broadcast proof fn lemma_section_of_bytes32(w: Seq<u8>)
    ensures
        (#[trigger] section_of_bytes32(w)).name_index_spec() == spec_u32_from_le_bytes(
            w.subrange(0, 4),
        ),
        section_of_bytes32(w).typ_spec() == spec_u32_from_le_bytes(w.subrange(4, 8)),
        section_of_bytes32(w).flags_spec() == spec_u32_from_le_bytes(w.subrange(8, 12)) as u64,
        section_of_bytes32(w).addr_spec() == spec_u32_from_le_bytes(w.subrange(12, 16)) as u64,
        section_of_bytes32(w).size_spec() == spec_u32_from_le_bytes(w.subrange(20, 24)) as u64,
        section_of_bytes32(w).addralign_spec() == spec_u32_from_le_bytes(
            w.subrange(32, 36),
        ) as u64,
{
}

/// What each field of a section decoded from the 64-bit layout is, in
/// terms of the entry's bytes.
pub broadcast proof fn lemma_section_of_bytes64(w: Seq<u8>)
    ensures
        (#[trigger] section_of_bytes64(w)).name_index_spec() == spec_u32_from_le_bytes(
            w.subrange(0, 4),
        ),
        section_of_bytes64(w).typ_spec() == spec_u32_from_le_bytes(w.subrange(4, 8)),
        section_of_bytes64(w).flags_spec() == spec_u64_from_le_bytes(w.subrange(8, 16)),
        section_of_bytes64(w).addr_spec() == spec_u64_from_le_bytes(w.subrange(16, 24)),
        section_of_bytes64(w).size_spec() == spec_u64_from_le_bytes(w.subrange(32, 40)),
        section_of_bytes64(w).addralign_spec() == spec_u64_from_le_bytes(w.subrange(48, 56)),
{
}

/// The parts of a section table tag that fit together: a defined entry
/// size, a region that is a whole number of entries and fits the tag's
/// size field, a section count within the region, and a string-table index
/// that names a declared section.
pub open spec fn elf_parts_wf(num: u32, entry_size: u32, shndx: u32, bytes: Seq<u8>) -> bool {
    &&& (entry_size == 40 || entry_size == 64)
    &&& bytes.len() + 20 <= u32::MAX
    &&& bytes.len() as int % (entry_size as int) == 0
    &&& num * entry_size <= bytes.len()
    &&& (shndx < num || (num == 0 && shndx == 0))
}

/// The section header carried by an entry of the declared size.
pub open spec fn section_of_bytes(w: Seq<u8>, entry_size: int) -> ElfSection {
    if entry_size == 40 {
        section_of_bytes32(w)
    } else {
        section_of_bytes64(w)
    }
}

/// Reads the section header at the start of a 40-byte window of the 32-bit
/// layout.
fn decode_section32(w: &[u8]) -> (r: ElfSection)
    requires
        w@.len() >= 40,
    ensures
        r == section_of_bytes32(w@),
{
    let mut cur = ByteCursor::new(w);
    let name_index = cur.read_u32();
    let typ = cur.read_u32();
    let flags = cur.read_u32();
    let addr = cur.read_u32();
    cur.skip(4);
    let size = cur.read_u32();
    cur.skip(8);
    let addralign = cur.read_u32();
    ElfSection {
        name_index,
        typ,
        flags: flags as u64,
        addr: addr as u64,
        size: size as u64,
        addralign: addralign as u64,
    }
}

/// Reads the section header at the start of a 64-byte window of the 64-bit
/// layout.
fn decode_section64(w: &[u8]) -> (r: ElfSection)
    requires
        w@.len() >= 64,
    ensures
        r == section_of_bytes64(w@),
{
    let mut cur = ByteCursor::new(w);
    let name_index = cur.read_u32();
    let typ = cur.read_u32();
    let flags = cur.read_u64();
    let addr = cur.read_u64();
    cur.skip(8);
    let size = cur.read_u64();
    cur.skip(8);
    let addralign = cur.read_u64();
    ElfSection { name_index, typ, flags, addr, size, addralign }
}

/// The ELF section header table tag: the section count, the entry size, the
/// index of the string-table section, and the raw header entries.
pub struct ElfSectionsTag {
    number_of_sections: u32,
    shndx: u32,
    sections: StrideArray,
}

impl ElfSectionsTag {
    /// The entry size is one of the two defined layouts, the declared
    /// number of sections lies within the entry region, the string-table
    /// index names one of the declared sections (or is zero when there are
    /// none), and the tag fits the 32-bit size field.
    #[verifier::type_invariant]
    pub closed spec fn inv(self) -> bool {
        &&& (self.sections.stride_spec() == 40 || self.sections.stride_spec() == 64)
        &&& self.sections.nominal_spec() == self.sections.stride_spec()
        &&& self.number_of_sections <= self.sections.count_spec()
        &&& (self.shndx < self.number_of_sections || (self.number_of_sections == 0 && self.shndx
            == 0))
        &&& 20 + self.sections.bytes_spec().len() <= u32::MAX
    }

    /// The declared number of section headers.
    pub closed spec fn num_spec(self) -> u32 {
        self.number_of_sections
    }

    /// The declared size of one section header entry.
    pub closed spec fn entry_size_spec(self) -> int {
        self.sections.stride_spec()
    }

    /// The declared index of the string-table section.
    pub closed spec fn shndx_spec(self) -> u32 {
        self.shndx
    }

    /// The raw bytes of the entry region.
    pub closed spec fn elems_spec(self) -> Seq<u8> {
        self.sections.bytes_spec()
    }

    /// The decoded section headers, in table order.
    pub closed spec fn sections_spec(self) -> Seq<ElfSection> {
        Seq::new(
            self.num_spec() as nat,
            |i: int| section_of_bytes(self.sections.window_spec(i), self.entry_size_spec()),
        )
    }

    /// The body bytes of the tag.
    pub open spec fn body_spec(self) -> Seq<u8> {
        spec_u32_to_le_bytes(self.num_spec()) + spec_u32_to_le_bytes(self.entry_size_spec() as u32)
            + spec_u32_to_le_bytes(self.shndx_spec()) + self.elems_spec()
    }

    /// The logical tag this section table stands for.
    pub open spec fn tag_spec(self) -> TagSpec {
        TagSpec { typ: TAG_TYPE_ELF_SECTIONS, body: self.body_spec() }
    }

    /// Builds the tag from the raw section header bytes as the loader hands
    /// them over. Fails exactly when the entry size is not one of the two
    /// defined layouts, the byte region is not a whole number of entries,
    /// the declared section count reaches past the region, the string-table
    /// index does not name a declared section, or the region cannot fit the
    /// tag's size field.
    pub fn new(number_of_sections: u32, entry_size: u32, shndx: u32, sections: &[u8]) -> (r: Result<
        Self,
        StructuralError,
    >)
        ensures
            r is Ok <==> elf_parts_wf(number_of_sections, entry_size, shndx, sections@),
            match r {
                Ok(t) => {
                    &&& t.num_spec() == number_of_sections
                    &&& t.entry_size_spec() == entry_size
                    &&& t.shndx_spec() == shndx
                    &&& t.elems_spec() == sections@
                },
                Err(e) => e == (if entry_size != 40 && entry_size != 64 {
                    StructuralError::InvalidStride
                } else if sections@.len() + 20 > u32::MAX {
                    StructuralError::TooLarge
                } else if sections@.len() as int % (entry_size as int) != 0 {
                    StructuralError::StrideMismatch
                } else {
                    StructuralError::InvalidBody
                }),
            },
    {
        if entry_size != 40 && entry_size != 64 {
            return Err(StructuralError::InvalidStride);
        }
        let n = sections.len();
        if n as u64 > (u32::MAX - 20) as u64 {
            return Err(StructuralError::TooLarge);
        }
        let arr = match StrideArray::new(entry_size as usize, entry_size as usize, slice_to_vec(
            sections,
        )) {
            Ok(arr) => arr,
            Err(e) => {
                return Err(e);
            },
        };
        proof {
            use_type_invariant(&arr);
            arr.lemma_inv();
        }
        if (number_of_sections as u64) * (entry_size as u64) > n as u64 {
            return Err(StructuralError::InvalidBody);
        }
        proof {
            vstd::arithmetic::div_mod::lemma_div_multiples_vanish(
                number_of_sections as int,
                entry_size as int,
            );
            assert(number_of_sections * entry_size == entry_size * number_of_sections)
                by (nonlinear_arith);
            vstd::arithmetic::div_mod::lemma_div_is_ordered(
                number_of_sections as int * entry_size as int,
                arr.bytes_spec().len() as int,
                entry_size as int,
            );
        }
        if !(shndx < number_of_sections || (number_of_sections == 0 && shndx == 0)) {
            return Err(StructuralError::InvalidBody);
        }
        Ok(ElfSectionsTag { number_of_sections, shndx, sections: arr })
    }

    /// Decodes a tag view as an ELF section table tag, with the same
    /// structural checks as building one from its parts.
    pub fn from_view(tv: &TagView) -> (r: Result<Self, StructuralError>)
        ensures
            r is Ok <==> (tv@.typ == TAG_TYPE_ELF_SECTIONS && tv@.body.len() + 8 <= u32::MAX
                && tv@.body.len() >= 12 && elf_parts_wf(
                spec_u32_from_le_bytes(tv@.body.subrange(0, 4)),
                spec_u32_from_le_bytes(tv@.body.subrange(4, 8)),
                spec_u32_from_le_bytes(tv@.body.subrange(8, 12)),
                tv@.body.skip(12),
            )),
            match r {
                Ok(t) => {
                    &&& t.num_spec() == spec_u32_from_le_bytes(tv@.body.subrange(0, 4))
                    &&& t.entry_size_spec() == spec_u32_from_le_bytes(tv@.body.subrange(4, 8))
                    &&& t.shndx_spec() == spec_u32_from_le_bytes(tv@.body.subrange(8, 12))
                    &&& t.elems_spec() == tv@.body.skip(12)
                    &&& t.tag_spec() == tv@
                },
                Err(e) => e == (if tv@.typ != TAG_TYPE_ELF_SECTIONS {
                    StructuralError::TypeMismatch
                } else if tv@.body.len() + 8 > u32::MAX {
                    StructuralError::TooLarge
                } else if tv@.body.len() < 12 {
                    StructuralError::InvalidBody
                } else if {
                    let es = spec_u32_from_le_bytes(tv@.body.subrange(4, 8));
                    es != 40 && es != 64
                } {
                    StructuralError::InvalidStride
                } else if (tv@.body.len() - 12) as int % (spec_u32_from_le_bytes(
                    tv@.body.subrange(4, 8),
                ) as int) != 0 {
                    StructuralError::StrideMismatch
                } else {
                    StructuralError::InvalidBody
                }),
            },
    {
        if tv.typ != TAG_TYPE_ELF_SECTIONS {
            return Err(StructuralError::TypeMismatch);
        }
        let n = tv.body.len();
        if n as u64 > (u32::MAX - 8) as u64 {
            return Err(StructuralError::TooLarge);
        }
        if n < 12 {
            return Err(StructuralError::InvalidBody);
        }
        let mut cur = ByteCursor::new(tv.body);
        let number_of_sections = cur.read_u32();
        let entry_size = cur.read_u32();
        let shndx = cur.read_u32();
        let rest = cur.rest();
        match ElfSectionsTag::new(number_of_sections, entry_size, shndx, rest) {
            Ok(t) => {
                proof {
                    lemma_auto_spec_u32_to_from_le_bytes();
                    assert(t.body_spec() =~= tv@.body);
                }
                Ok(t)
            },
            Err(e) => Err(e),
        }
    }

    /// The declared number of section headers.
    pub fn num_sections(&self) -> (r: u32)
        ensures
            r == self.num_spec(),
    {
        self.number_of_sections
    }

    /// The declared entry size.
    pub fn entry_size(&self) -> (r: u32)
        ensures
            r == self.entry_size_spec(),
    {
        proof {
            use_type_invariant(&*self);
        }
        self.sections.stride() as u32
    }

    /// The declared index of the string-table section.
    pub fn shndx(&self) -> (r: u32)
        ensures
            r == self.shndx_spec(),
    {
        self.shndx
    }

    /// The section header at index `i`, decoded from the entry at
    /// `i * entry_size` in the declared layout.
    pub fn section(&self, i: usize) -> (r: ElfSection)
        requires
            i < self.num_spec(),
        ensures
            r == self.sections_spec()[i as int],
    {
        proof {
            use_type_invariant(&*self);
        }
        let w = self.sections.window(i);
        if self.sections.nominal() == 40 {
            decode_section32(w)
        } else {
            decode_section64(w)
        }
    }

    /// Resolves the string-table section through the tag's own entry array:
    /// the element at index `shndx` doubles as the descriptor of the table
    /// that holds all the sections' names. Fails exactly when the tag
    /// declares no sections at all.
    pub fn string_table_section(&self) -> (r: Result<ElfSection, StructuralError>)
        ensures
            match r {
                Ok(s) => self.num_spec() > 0 && s == self.sections_spec()[self.shndx_spec() as int],
                Err(e) => self.num_spec() == 0 && e == StructuralError::InvalidBody,
            },
    {
        proof {
            use_type_invariant(&*self);
        }
        if self.number_of_sections == 0 {
            return Err(StructuralError::InvalidBody);
        }
        Ok(self.section(self.shndx as usize))
    }

    /// An iterator over the sections that are in use: headers whose type
    /// reads as unused are skipped, as they carry no section.
    pub fn sections<'a>(&'a self) -> (r: ElfSectionIter<'a>)
        ensures
            r.wf(),
            r.remaining_spec() == nonunused_of(self.sections_spec()),
    {
        proof {
            assert(self.sections_spec().skip(0) =~= self.sections_spec());
        }
        ElfSectionIter { tag: self, idx: 0 }
    }

    /// The tag, serialized for the assembler.
    pub fn to_tag_bytes(&self) -> (r: TagBytes)
        ensures
            r@ == self.tag_spec(),
    {
        proof {
            use_type_invariant(&*self);
        }
        let mut body = u32_to_le_bytes(self.number_of_sections);
        let mut entry_size_bytes = u32_to_le_bytes(self.sections.stride() as u32);
        body.append(&mut entry_size_bytes);
        let mut shndx_bytes = u32_to_le_bytes(self.shndx);
        body.append(&mut shndx_bytes);
        body.extend_from_slice(self.sections.as_bytes());
        proof {
            assert(body@ =~= self.body_spec());
        }
        TagBytes::new(TAG_TYPE_ELF_SECTIONS, body)
    }
}

/// The sections of `s` whose type is not unused, in table order.
pub open spec fn nonunused_of(s: Seq<ElfSection>) -> Seq<ElfSection>
    decreases s.len(),
{
    if s.len() == 0 {
        Seq::empty()
    } else if section_type_of(s[0].typ_spec()) != ElfSectionType::Unused {
        seq![s[0]] + nonunused_of(s.drop_first())
    } else {
        nonunused_of(s.drop_first())
    }
}

/// An iterator over the in-use sections of a section table tag, in table
/// order. Headers of unused (or unrecognized) type are skipped, exactly as
/// a consumer walking the table would skip them.
pub struct ElfSectionIter<'a> {
    tag: &'a ElfSectionsTag,
    idx: usize,
}

impl<'a> ElfSectionIter<'a> {
    /// The cursor stays within the declared number of sections.
    pub closed spec fn wf(self) -> bool {
        self.idx <= self.tag.num_spec()
    }

    /// The in-use sections the iterator has yet to yield.
    pub closed spec fn remaining_spec(self) -> Seq<ElfSection> {
        nonunused_of(self.tag.sections_spec().skip(self.idx as int))
    }

    /// Yields the next in-use section, or `None` exactly when none remain.
    pub fn next(&mut self) -> (r: Option<ElfSection>)
        requires
            old(self).wf(),
        ensures
            final(self).wf(),
            match r {
                Some(s) => {
                    &&& old(self).remaining_spec().len() > 0
                    &&& s == old(self).remaining_spec()[0]
                    &&& final(self).remaining_spec() == old(self).remaining_spec().drop_first()
                },
                None => {
                    &&& old(self).remaining_spec().len() == 0
                    &&& final(self).remaining_spec() == old(self).remaining_spec()
                },
            },
    {
        let ghost ss = self.tag.sections_spec();
        let ghost rem0 = self.remaining_spec();
        let n = self.tag.num_sections() as usize;
        loop
            invariant
                self.idx <= n,
                n == self.tag.num_spec(),
                ss == self.tag.sections_spec(),
                ss.len() == n,
                rem0 == old(self).remaining_spec(),
                rem0 == nonunused_of(ss.skip(self.idx as int)),
            decreases n - self.idx,
        {
            if self.idx >= n {
                proof {
                    assert(ss.skip(self.idx as int) =~= Seq::<ElfSection>::empty());
                }
                return None;
            }
            let s = self.tag.section(self.idx);
            proof {
                assert(ss.skip(self.idx as int)[0] == ss[self.idx as int]);
                assert(ss.skip(self.idx as int).drop_first() =~= ss.skip(self.idx as int + 1));
            }
            self.idx = self.idx + 1;
            if !matches!(s.section_type(), ElfSectionType::Unused) {
                proof {
                    assert(rem0 == seq![s] + nonunused_of(ss.skip(self.idx as int)));
                    assert(rem0.drop_first() =~= nonunused_of(ss.skip(self.idx as int)));
                }
                return Some(s);
            }
        }
    }
}

} // verus!
