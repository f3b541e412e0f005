use multiboot2::boot_loader_name::BootLoaderNameTag;
use multiboot2::builder::InformationBuilder;
use multiboot2::command_line::CommandLineTag;
use multiboot2::memory_map::{BasicMemoryInfoTag, EFIBootServicesNotExited, MemoryArea,
    MemoryAreaType, MemoryMapTag};
use multiboot2::module::{module_iter, ModuleTag};
use multiboot2::smbios::SmbiosTag;
use multiboot2::stream::BootInformation;

#[test]
fn assembled_blob_decodes_to_same_tags() {
    let mut builder = InformationBuilder::new();
    let name = BootLoaderNameTag::new("GRUB 2.02~beta3-5");
    builder.add_tag(name.to_tag_bytes());
    let cmdline = CommandLineTag::new("/bootarg");
    builder.add_tag(cmdline.to_tag_bytes());
    let module = ModuleTag::new(0x1000, 0x2000, "--test");
    builder.add_tag(module.to_tag_bytes());
    let meminfo = BasicMemoryInfoTag::new(640, 31744);
    builder.add_tag(meminfo.to_tag_bytes());
    let areas = [
        MemoryArea::new(0, 0x9fc00, MemoryAreaType::Available),
        MemoryArea::new(0x100000, 0x7ee0000, MemoryAreaType::Available),
    ];
    let mmap = MemoryMapTag::new(&areas);
    builder.add_tag(mmap.to_tag_bytes());
    let smbios = SmbiosTag::new(3, 0, &[0xab; 24]);
    builder.add_tag(smbios.to_tag_bytes());
    let efi_bs = EFIBootServicesNotExited::new();
    builder.add_tag(efi_bs.to_tag_bytes());

    let blob = builder.build().unwrap();
    let info = BootInformation::new(&blob).unwrap();
    assert_eq!(info.total_size() as usize, blob.len());

    let mut stream = info.tags();
    let mut typs = Vec::new();
    loop {
        match stream.next().unwrap() {
            Some(view) => typs.push(view.typ),
            None => break,
        }
    }
    assert_eq!(typs, vec![2, 1, 3, 4, 6, 13, 18]);

    // the decoded tags carry the same values that went in
    let mut stream = info.tags();
    let first = stream.next().unwrap().unwrap();
    let decoded_name = BootLoaderNameTag::from_view(&first).unwrap();
    assert_eq!(decoded_name.name(), Ok("GRUB 2.02~beta3-5"));
    let second = stream.next().unwrap().unwrap();
    let decoded_cmdline = CommandLineTag::from_view(&second).unwrap();
    assert_eq!(decoded_cmdline.command_line(), Ok("/bootarg"));
    let third = stream.next().unwrap().unwrap();
    let decoded_module = ModuleTag::from_view(&third).unwrap();
    assert_eq!(decoded_module.start_address(), 0x1000);
    assert_eq!(decoded_module.end_address(), 0x2000);
    assert_eq!(decoded_module.cmdline(), Ok("--test"));
    let fourth = stream.next().unwrap().unwrap();
    let decoded_meminfo = BasicMemoryInfoTag::from_view(&fourth).unwrap();
    assert_eq!(decoded_meminfo.memory_lower(), 640);
    assert_eq!(decoded_meminfo.memory_upper(), 31744);
    let fifth = stream.next().unwrap().unwrap();
    let decoded_mmap = MemoryMapTag::from_view(&fifth).unwrap();
    assert_eq!(decoded_mmap.entry_size(), 24);
    assert_eq!(decoded_mmap.len(), 2);
    assert_eq!(decoded_mmap.area(1).start_address(), 0x100000);
    assert_eq!(decoded_mmap.area(1).size(), 0x7ee0000);
    let sixth = stream.next().unwrap().unwrap();
    let decoded_smbios = SmbiosTag::from_view(&sixth).unwrap();
    assert_eq!(decoded_smbios.major(), 3);
    assert_eq!(decoded_smbios.tables(), &[0xab; 24][..]);
    let seventh = stream.next().unwrap().unwrap();
    assert_eq!(seventh.typ, 18);
    assert_eq!(seventh.body.len(), 0);
    assert!(stream.next().unwrap().is_none());
}

#[test]
fn bootloader_name_scenario_decodes_and_ends() {
    // blob: header {total_size=40, reserved=0}; boot loader name tag
    // {type=2, size=18, "GRUB 2.02" NUL}, padded to 24; terminator {0, 8}
    let mut blob = Vec::new();
    blob.extend_from_slice(&40u32.to_le_bytes());
    blob.extend_from_slice(&0u32.to_le_bytes());
    blob.extend_from_slice(&2u32.to_le_bytes());
    blob.extend_from_slice(&18u32.to_le_bytes());
    blob.extend_from_slice(b"GRUB 2.02");
    blob.push(0);
    blob.extend_from_slice(&[0u8; 6]);
    blob.extend_from_slice(&0u32.to_le_bytes());
    blob.extend_from_slice(&8u32.to_le_bytes());
    assert_eq!(blob.len(), 40);

    let info = BootInformation::new(&blob).unwrap();
    let mut stream = info.tags();
    let view = stream.next().unwrap().unwrap();
    assert_eq!(view.typ, 2);
    let name_tag = BootLoaderNameTag::from_view(&view).unwrap();
    assert_eq!(name_tag.name(), Ok("GRUB 2.02"));
    let end = stream.next().unwrap();
    assert!(end.is_none());
}

#[test]
fn truncated_blob_is_a_structural_error() {
    // assemble a valid blob, then supply one byte less than total_size
    let mut builder = InformationBuilder::new();
    builder.add_tag(BootLoaderNameTag::new("loader").to_tag_bytes());
    let blob = builder.build().unwrap();
    let truncated = &blob[..blob.len() - 1];
    assert!(BootInformation::new(truncated).is_err());
}

#[test]
fn tag_overrunning_truncated_region_is_a_structural_error() {
    // a region whose tag claims more bytes than the region holds
    let mut builder = InformationBuilder::new();
    builder.add_tag(BootLoaderNameTag::new("loader").to_tag_bytes());
    let blob = builder.build().unwrap();
    let mut stream = multiboot2::stream::TagStream::new(&blob[8..blob.len() - 12]);
    assert!(stream.next().is_err());
}

#[test]
fn unknown_tag_is_yielded_and_skipped() {
    // known tag, then a tag with unrecognized type code 0x1234 but valid
    // size, then another known tag; iteration reaches all three
    let mut blob = Vec::new();
    blob.extend_from_slice(&0u32.to_le_bytes()); // patched below
    blob.extend_from_slice(&0u32.to_le_bytes());
    // boot loader name "A": size 10, padded to 16
    blob.extend_from_slice(&2u32.to_le_bytes());
    blob.extend_from_slice(&10u32.to_le_bytes());
    blob.extend_from_slice(b"A\0");
    blob.extend_from_slice(&[0u8; 6]);
    // unknown tag: size 12, body [1,2,3,4], padded to 16
    blob.extend_from_slice(&0x1234u32.to_le_bytes());
    blob.extend_from_slice(&12u32.to_le_bytes());
    blob.extend_from_slice(&[1, 2, 3, 4]);
    blob.extend_from_slice(&[0u8; 4]);
    // command line "B": size 10, padded to 16
    blob.extend_from_slice(&1u32.to_le_bytes());
    blob.extend_from_slice(&10u32.to_le_bytes());
    blob.extend_from_slice(b"B\0");
    blob.extend_from_slice(&[0u8; 6]);
    // terminator
    blob.extend_from_slice(&0u32.to_le_bytes());
    blob.extend_from_slice(&8u32.to_le_bytes());
    let total = blob.len() as u32;
    blob[0..4].copy_from_slice(&total.to_le_bytes());

    let info = BootInformation::new(&blob).unwrap();
    let mut stream = info.tags();
    let first = stream.next().unwrap().unwrap();
    assert_eq!(first.typ, 2);
    assert_eq!(
        BootLoaderNameTag::from_view(&first).unwrap().name(),
        Ok("A")
    );
    let second = stream.next().unwrap().unwrap();
    assert_eq!(second.typ, 0x1234);
    assert_eq!(second.body, &[1, 2, 3, 4]);
    let third = stream.next().unwrap().unwrap();
    assert_eq!(third.typ, 1);
    assert_eq!(
        CommandLineTag::from_view(&third).unwrap().command_line(),
        Ok("B")
    );
    assert!(stream.next().unwrap().is_none());
}

#[test]
fn module_iter_yields_only_modules() {
    let mut builder = InformationBuilder::new();
    builder.add_tag(BootLoaderNameTag::new("loader").to_tag_bytes());
    builder.add_tag(ModuleTag::new(0x1000, 0x2000, "first").to_tag_bytes());
    builder.add_tag(BasicMemoryInfoTag::new(1, 2).to_tag_bytes());
    builder.add_tag(ModuleTag::new(0x3000, 0x5000, "second").to_tag_bytes());
    let blob = builder.build().unwrap();
    let info = BootInformation::new(&blob).unwrap();
    let mut modules = module_iter(info.tags());
    let first = modules.next().unwrap().unwrap();
    assert_eq!(first.cmdline(), Ok("first"));
    assert_eq!(first.start_address(), 0x1000);
    let second = modules.next().unwrap().unwrap();
    assert_eq!(second.cmdline(), Ok("second"));
    assert_eq!(second.module_size(), 0x2000);
    assert!(modules.next().unwrap().is_none());
}

#[test]
fn empty_information_round_trips() {
    // no tags at all: the blob is the header plus the terminator
    let builder = InformationBuilder::new();
    let blob = builder.build().unwrap();
    assert_eq!(blob.len(), 16);
    let info = BootInformation::new(&blob).unwrap();
    assert_eq!(info.total_size(), 16);
    let mut stream = info.tags();
    assert!(stream.next().unwrap().is_none());
}

#[test]
fn efi_boot_services_tag_round_trips() {
    let tag = EFIBootServicesNotExited::new();
    let tag_bytes = tag.to_tag_bytes();
    assert_eq!(tag_bytes.typ(), 18);
    assert_eq!(tag_bytes.body().len(), 0);
    let view = multiboot2::stream::TagView {
        typ: tag_bytes.typ(),
        body: tag_bytes.body().as_slice(),
    };
    assert!(EFIBootServicesNotExited::from_view(&view).is_ok());
    assert_eq!(EFIBootServicesNotExited::default(), tag);
}
