use multiboot2::boot_loader_name::BootLoaderNameTag;
use multiboot2::command_line::CommandLineTag;
use multiboot2::cursor::ByteCursor;
use multiboot2::memory_map::MemoryMapTag;
use multiboot2::module::ModuleTag;
use multiboot2::smbios::SmbiosTag;
use multiboot2::stream::{BootInformation, TagStream, TagView};
use multiboot2::{EncodingError, StructuralError};

const MSG: &str = "hello";

/// Returns a string tag structure in bytes in native endian format.
fn string_tag_bytes(typ: u32) -> Vec<u8> {
    // size is: 4 bytes for tag + 4 bytes for size + length of null-terminated string
    let size = (4 + 4 + MSG.as_bytes().len() + 1) as u32;
    let mut bytes = Vec::new();
    bytes.extend_from_slice(&typ.to_ne_bytes());
    bytes.extend_from_slice(&size.to_ne_bytes());
    bytes.extend_from_slice(MSG.as_bytes());
    bytes.push(0);
    bytes
}

/// Tests to parse a string with a terminating null byte from the tag (as the spec defines).
#[test]
fn boot_loader_name_test_parse_str() {
    let tag = string_tag_bytes(2);
    let typ = u32::from_ne_bytes([tag[0], tag[1], tag[2], tag[3]]);
    assert_eq!(typ, 2);
    let view = TagView { typ, body: &tag[8..] };
    let parsed = BootLoaderNameTag::from_view(&view).unwrap();
    assert_eq!(parsed.name().expect("must be valid UTF-8"), MSG);
}

/// Tests to parse a string with a terminating null byte from the tag (as the spec defines).
#[test]
fn command_line_test_parse_str() {
    let tag = string_tag_bytes(1);
    let typ = u32::from_ne_bytes([tag[0], tag[1], tag[2], tag[3]]);
    assert_eq!(typ, 1);
    let view = TagView { typ, body: &tag[8..] };
    let parsed = CommandLineTag::from_view(&view).unwrap();
    assert_eq!(parsed.command_line().expect("must be valid UTF-8"), MSG);
}

/// Tests to parse a string with a terminating null byte from the tag (as the spec defines).
#[test]
fn module_test_parse_str() {
    // size is: 4 bytes for tag + 4 bytes for size + length of null-terminated string
    //          4 bytes mod_start + 4 bytes mod_end
    let size = (4 + 4 + 4 + 4 + MSG.as_bytes().len() + 1) as u32;
    let mut tag = Vec::new();
    tag.extend_from_slice(&3u32.to_ne_bytes());
    tag.extend_from_slice(&size.to_ne_bytes());
    tag.extend_from_slice(&0u32.to_ne_bytes());
    tag.extend_from_slice(&0u32.to_ne_bytes());
    tag.extend_from_slice(MSG.as_bytes());
    tag.push(0);
    let typ = u32::from_ne_bytes([tag[0], tag[1], tag[2], tag[3]]);
    assert_eq!(typ, 3);
    let view = TagView { typ, body: &tag[8..] };
    let parsed = ModuleTag::from_view(&view).unwrap();
    assert_eq!(parsed.cmdline().expect("must be valid UTF-8"), MSG);
}

/// Tests to parse a string with a terminating null byte from the tag (as the spec defines).
#[test]
fn test_parse() {
    let tables = [0xabu8; 24];
    // size is: 4 bytes for tag + 4 bytes for size + 1 byte for major and minor
    // + 6 bytes reserved + the actual tables
    let size = (4 + 4 + 1 + 1 + 6 + tables.len()) as u32;
    let typ: u32 = 13;
    let mut bytes = Vec::new();
    bytes.extend_from_slice(&typ.to_ne_bytes());
    bytes.extend_from_slice(&size.to_ne_bytes());
    bytes.push(3);
    bytes.push(0);
    bytes.extend_from_slice(&[0; 6]);
    bytes.extend_from_slice(&tables);
    let mut stream = TagStream::new(&bytes);
    let view = stream.next().unwrap().unwrap();
    assert_eq!(view.typ, 13);
    let parsed = SmbiosTag::from_view(&view).unwrap();
    assert_eq!(parsed.major(), 3);
    assert_eq!(parsed.minor(), 0);
    assert_eq!(parsed.tables(), &[0xabu8; 24][..]);
}

#[test]
fn boot_information_rejects_short_buffer() {
    let buf = [0u8; 4];
    assert_eq!(
        BootInformation::new(&buf).err(),
        Some(StructuralError::BufferTooSmall)
    );
}

#[test]
fn boot_information_rejects_total_size_mismatch() {
    let mut blob = Vec::new();
    blob.extend_from_slice(&24u32.to_le_bytes());
    blob.extend_from_slice(&0u32.to_le_bytes());
    blob.extend_from_slice(&0u32.to_le_bytes());
    blob.extend_from_slice(&8u32.to_le_bytes());
    // header claims 24 bytes but only 16 are present
    assert_eq!(
        BootInformation::new(&blob).err(),
        Some(StructuralError::TotalSizeMismatch)
    );
}

#[test]
fn stream_rejects_undersized_tag() {
    let mut region = Vec::new();
    region.extend_from_slice(&5u32.to_le_bytes());
    region.extend_from_slice(&4u32.to_le_bytes());
    region.extend_from_slice(&[0u8; 8]);
    let mut stream = TagStream::new(&region);
    assert_eq!(stream.next().err(), Some(StructuralError::InvalidTagSize));
}

#[test]
fn stream_rejects_oversized_terminator() {
    let mut region = Vec::new();
    region.extend_from_slice(&0u32.to_le_bytes());
    region.extend_from_slice(&16u32.to_le_bytes());
    region.extend_from_slice(&[0u8; 8]);
    let mut stream = TagStream::new(&region);
    assert_eq!(stream.next().err(), Some(StructuralError::InvalidTagSize));
}

#[test]
fn stream_rejects_tag_overrunning_region() {
    let mut region = Vec::new();
    region.extend_from_slice(&5u32.to_le_bytes());
    region.extend_from_slice(&100u32.to_le_bytes());
    region.extend_from_slice(&[0u8; 8]);
    let mut stream = TagStream::new(&region);
    assert_eq!(stream.next().err(), Some(StructuralError::TruncatedTag));
}

#[test]
fn stream_rejects_missing_terminator() {
    let region = [0u8; 4];
    let mut stream = TagStream::new(&region);
    assert_eq!(stream.next().err(), Some(StructuralError::TruncatedTag));
}

#[test]
fn from_view_rejects_wrong_tag_type() {
    let body = [0u8; 8];
    let view = TagView { typ: 2, body: &body };
    assert_eq!(
        SmbiosTag::from_view(&view).err(),
        Some(StructuralError::TypeMismatch)
    );
}

#[test]
fn string_tag_rejects_empty_body() {
    let view = TagView { typ: 2, body: &[] };
    assert_eq!(
        BootLoaderNameTag::from_view(&view).err(),
        Some(StructuralError::InvalidBody)
    );
}

#[test]
fn string_tag_reports_invalid_utf8() {
    let body = [0xffu8, 0xfe, 0x00];
    let view = TagView { typ: 2, body: &body };
    let parsed = BootLoaderNameTag::from_view(&view).unwrap();
    assert_eq!(parsed.name(), Err(EncodingError));
}

#[test]
fn memory_map_rejects_small_entry_size() {
    let mut body = Vec::new();
    body.extend_from_slice(&16u32.to_le_bytes());
    body.extend_from_slice(&0u32.to_le_bytes());
    let view = TagView { typ: 6, body: &body };
    assert_eq!(
        MemoryMapTag::from_view(&view).err(),
        Some(StructuralError::InvalidStride)
    );
}

#[test]
fn memory_map_rejects_ragged_entry_region() {
    let mut body = Vec::new();
    body.extend_from_slice(&24u32.to_le_bytes());
    body.extend_from_slice(&0u32.to_le_bytes());
    body.extend_from_slice(&[0u8; 20]);
    let view = TagView { typ: 6, body: &body };
    assert_eq!(
        MemoryMapTag::from_view(&view).err(),
        Some(StructuralError::StrideMismatch)
    );
}

#[test]
fn module_accessors_report_addresses() {
    let module = ModuleTag::new(0x1000, 0x3000, "--test cmdline-option");
    assert_eq!(module.start_address(), 0x1000);
    assert_eq!(module.end_address(), 0x3000);
    assert_eq!(module.module_size(), 0x2000);
    assert_eq!(module.cmdline(), Ok("--test cmdline-option"));
}

#[test]
fn byte_cursor_reads_in_order() {
    let buf = [0x78u8, 0x56, 0x34, 0x12, 0xaa, 0x01, 0, 0, 0, 0, 0, 0, 0x80, 0x01];
    let mut cur = ByteCursor::new(&buf);
    assert_eq!(cur.read_u32(), 0x12345678);
    assert_eq!(cur.read_u8(), 0xaa);
    assert_eq!(cur.read_u64(), 0x8000_0000_0000_0001);
    assert_eq!(cur.remaining(), 1);
    assert_eq!(cur.rest(), &[0x01u8][..]);
    cur.skip(1);
    assert_eq!(cur.remaining(), 0);
}

#[test]
fn tag_view_reports_declared_size() {
    let body = [1u8, 2, 3];
    let view = TagView { typ: 7, body: &body };
    assert_eq!(view.size(), 11);
}
