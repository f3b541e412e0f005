//! Decoder and encoder for the Multiboot2 boot information structure: a
//! fixed header followed by a sequence of 8-byte-aligned, type-coded,
//! variable-length tags.
//!
//! The decode side walks an untrusted byte region tag by tag, honoring the
//! alignment and bounds invariants of the format, and exposes typed views of
//! the known tag kinds. The encode side builds byte-exact tags and assembles
//! them into one compliant blob. Decoding the assembled blob provably yields
//! the tags that went in.
//!
//! Malformed input is handled strictly: a tag sequence that is truncated or
//! carries an impossible size is reported as a [`StructuralError`] rather
//! than silently treated as end of stream.

use vstd::prelude::*;

pub mod boot_loader_name;
pub mod builder;
pub mod command_line;
pub mod cursor;
pub mod elf_sections;
pub mod framebuffer;
pub mod memory_map;
pub mod model;
pub mod module;
pub mod smbios;
pub mod stream;
pub mod stride;
pub mod text;

verus! {

/// Type code of the terminator tag that ends every tag sequence.
pub const TAG_TYPE_END: u32 = 0;

/// Type code of the kernel command line tag.
pub const TAG_TYPE_CMDLINE: u32 = 1;

/// Type code of the boot loader name tag.
pub const TAG_TYPE_BOOT_LOADER_NAME: u32 = 2;

/// Type code of the boot module tag.
pub const TAG_TYPE_MODULE: u32 = 3;

/// Type code of the basic memory information tag.
pub const TAG_TYPE_BASIC_MEMINFO: u32 = 4;

/// Type code of the legacy memory map tag.
pub const TAG_TYPE_MMAP: u32 = 6;

/// Type code of the framebuffer information tag.
pub const TAG_TYPE_FRAMEBUFFER: u32 = 8;

/// Type code of the ELF section header table tag.
pub const TAG_TYPE_ELF_SECTIONS: u32 = 9;

/// Type code of the SMBIOS tables tag.
pub const TAG_TYPE_SMBIOS: u32 = 13;

/// Type code of the EFI memory map tag.
pub const TAG_TYPE_EFI_MMAP: u32 = 17;

/// Type code of the "EFI boot services not exited" tag.
pub const TAG_TYPE_EFI_BS: u32 = 18;

/// A violation of the structure of the boot information blob or of one of
/// its tags: the bytes cannot be what a conformant producer emits, so the
/// error is surfaced to the caller and never silently repaired.
#[derive(Clone, Copy, Debug, PartialEq, Eq, Structural)]
pub enum StructuralError {
    /// The byte region is smaller than the 8-byte blob header.
    BufferTooSmall,
    /// The blob header's `total_size` field does not equal the length of the
    /// supplied byte region.
    TotalSizeMismatch,
    /// A tag header declares a size below 8, or a terminator tag declares a
    /// size other than 8.
    InvalidTagSize,
    /// A tag (with its alignment padding) or a tag header reaches past the
    /// end of the byte region, or the terminator tag is missing.
    TruncatedTag,
    /// A tag body is too short for its kind, or an index stored in the body
    /// points outside the body.
    InvalidBody,
    /// A tag view was handed to the decoder of a different tag kind.
    TypeMismatch,
    /// An array tag declares an element stride that its kind does not allow.
    InvalidStride,
    /// The element region of an array tag is not a whole multiple of the
    /// declared element stride.
    StrideMismatch,
    /// The assembled blob would not fit in the 32-bit `total_size` field.
    TooLarge,
}

/// A tag body that should carry text holds bytes that are not valid UTF-8.
/// Surfaced per accessor call; it does not abort iteration of sibling tags.
#[derive(Clone, Copy, Debug, PartialEq, Eq, Structural)]
pub struct EncodingError;

} // verus!
