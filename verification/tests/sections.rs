use multiboot2::elf_sections::{ElfSectionType, ElfSectionsTag};
use multiboot2::stream::TagView;
use multiboot2::{EncodingError, StructuralError};

fn push_section64(
    out: &mut Vec<u8>,
    name_index: u32,
    typ: u32,
    flags: u64,
    addr: u64,
    size: u64,
    addralign: u64,
) {
    out.extend_from_slice(&name_index.to_le_bytes());
    out.extend_from_slice(&typ.to_le_bytes());
    out.extend_from_slice(&flags.to_le_bytes());
    out.extend_from_slice(&addr.to_le_bytes());
    out.extend_from_slice(&0u64.to_le_bytes()); // file offset
    out.extend_from_slice(&size.to_le_bytes());
    out.extend_from_slice(&0u32.to_le_bytes()); // link
    out.extend_from_slice(&0u32.to_le_bytes()); // info
    out.extend_from_slice(&addralign.to_le_bytes());
    out.extend_from_slice(&0u64.to_le_bytes()); // entry size
}

fn sample_table() -> ElfSectionsTag {
    let mut bytes = Vec::new();
    push_section64(&mut bytes, 0, 0, 0, 0, 0, 0);
    push_section64(&mut bytes, 1, 1, 0x6, 0x100000, 0x5000, 16);
    push_section64(&mut bytes, 7, 3, 0x2, 0x200000, 15, 1);
    ElfSectionsTag::new(3, 64, 2, &bytes).unwrap()
}

#[test]
fn elf_sections_decode_64_bit_entries() {
    let tag = sample_table();
    assert_eq!(tag.num_sections(), 3);
    assert_eq!(tag.entry_size(), 64);
    assert_eq!(tag.shndx(), 2);
    let text = tag.section(1);
    assert_eq!(text.section_type(), ElfSectionType::ProgramSection);
    assert_eq!(text.section_type_raw(), 1);
    assert_eq!(text.start_address(), 0x100000);
    assert_eq!(text.end_address(), 0x105000);
    assert_eq!(text.size(), 0x5000);
    assert_eq!(text.addralign(), 16);
    assert_eq!(text.flags(), 0x6);
    assert!(text.is_allocated());
}

#[test]
fn elf_sections_iterator_skips_unused() {
    let tag = sample_table();
    let mut iter = tag.sections();
    let first = iter.next().unwrap();
    assert_eq!(first.section_type(), ElfSectionType::ProgramSection);
    let second = iter.next().unwrap();
    assert_eq!(second.section_type(), ElfSectionType::StringTable);
    assert!(iter.next().is_none());
}

#[test]
fn elf_string_table_is_resolved_through_shndx() {
    let tag = sample_table();
    let strtab = tag.string_table_section().unwrap();
    assert_eq!(strtab, tag.section(2));
    assert_eq!(strtab.start_address(), 0x200000);
    // the caller reads the table's bytes at that address; the names then
    // resolve through each section's name index
    let table = b"\0.text\0.strtab\0";
    let text = tag.section(1);
    assert_eq!(text.name(table), Ok(".text"));
    assert_eq!(strtab.name(table), Ok(".strtab"));
}

#[test]
fn elf_section_name_failures() {
    let tag = sample_table();
    let text = tag.section(1);
    // index past the table
    assert_eq!(text.name(b""), Err(EncodingError));
    // no terminating NUL after the index
    assert_eq!(text.name(b"\0.text"), Err(EncodingError));
    // bytes before the NUL are not UTF-8
    assert_eq!(text.name(&[0, 0xff, 0xfe, 0]), Err(EncodingError));
}

#[test]
fn elf_sections_round_trip_through_tag_bytes() {
    let tag = sample_table();
    let tag_bytes = tag.to_tag_bytes();
    assert_eq!(tag_bytes.typ(), 9);
    let view = TagView { typ: tag_bytes.typ(), body: tag_bytes.body().as_slice() };
    let decoded = ElfSectionsTag::from_view(&view).unwrap();
    assert_eq!(decoded.num_sections(), 3);
    assert_eq!(decoded.entry_size(), 64);
    assert_eq!(decoded.shndx(), 2);
    assert_eq!(decoded.section(1), tag.section(1));
}

#[test]
fn elf_sections_decode_32_bit_entries() {
    let mut bytes = Vec::new();
    // one 40-byte entry in the 32-bit layout
    bytes.extend_from_slice(&5u32.to_le_bytes()); // name index
    bytes.extend_from_slice(&8u32.to_le_bytes()); // type: uninitialized
    bytes.extend_from_slice(&0x3u32.to_le_bytes()); // flags
    bytes.extend_from_slice(&0x8000u32.to_le_bytes()); // addr
    bytes.extend_from_slice(&0u32.to_le_bytes()); // file offset
    bytes.extend_from_slice(&0x400u32.to_le_bytes()); // size
    bytes.extend_from_slice(&0u32.to_le_bytes()); // link
    bytes.extend_from_slice(&0u32.to_le_bytes()); // info
    bytes.extend_from_slice(&4u32.to_le_bytes()); // addralign
    bytes.extend_from_slice(&0u32.to_le_bytes()); // entry size
    let tag = ElfSectionsTag::new(1, 40, 0, &bytes).unwrap();
    let s = tag.section(0);
    assert_eq!(s.section_type(), ElfSectionType::Uninitialized);
    assert_eq!(s.start_address(), 0x8000);
    assert_eq!(s.size(), 0x400);
    assert_eq!(s.addralign(), 4);
    assert_eq!(s.flags(), 0x3);
}

#[test]
fn elf_environment_specific_type_is_recognized() {
    let mut bytes = Vec::new();
    push_section64(&mut bytes, 0, 0x6000_0001, 0, 0, 0, 0);
    let tag = ElfSectionsTag::new(1, 64, 0, &bytes).unwrap();
    let s = tag.section(0);
    assert_eq!(s.section_type(), ElfSectionType::EnvironmentSpecific);
    assert_eq!(s.section_type_raw(), 0x6000_0001);
}

#[test]
fn elf_sections_reject_bad_geometry() {
    let mut bytes = Vec::new();
    push_section64(&mut bytes, 0, 0, 0, 0, 0, 0);
    // an entry size that is neither layout
    assert_eq!(
        ElfSectionsTag::new(1, 50, 0, &bytes).err(),
        Some(StructuralError::InvalidStride)
    );
    // more declared sections than the region holds
    assert_eq!(
        ElfSectionsTag::new(2, 64, 0, &bytes).err(),
        Some(StructuralError::InvalidBody)
    );
    // a string-table index past the declared sections
    assert_eq!(
        ElfSectionsTag::new(1, 64, 1, &bytes).err(),
        Some(StructuralError::InvalidBody)
    );
    // a region that is not a whole number of entries
    assert_eq!(
        ElfSectionsTag::new(1, 64, 0, &bytes[..60]).err(),
        Some(StructuralError::StrideMismatch)
    );
}
