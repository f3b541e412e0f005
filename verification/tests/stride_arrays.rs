use multiboot2::memory_map::{EFIMemoryAreaType, EFIMemoryDesc, EFIMemoryMapTag, MemoryArea,
    MemoryAreaType, MemoryMapTag};
use multiboot2::stream::TagView;

fn sample_descs() -> Vec<EFIMemoryDesc> {
    vec![
        EFIMemoryDesc {
            typ_code: 7,
            phys_addr: 0x10_0000,
            virt_addr: 0,
            num_pages: 256,
            attr: 0xf,
        },
        EFIMemoryDesc {
            typ_code: 2,
            phys_addr: 0x80_0000,
            virt_addr: 0x80_0000,
            num_pages: 16,
            attr: 0x1,
        },
    ]
}

/// Appends one descriptor's 40 nominal bytes followed by padding up to the
/// declared descriptor size, using a nonzero filler so that a decoder that
/// read past the nominal bytes would be caught.
fn push_desc(out: &mut Vec<u8>, d: &EFIMemoryDesc, desc_size: usize) {
    out.extend_from_slice(&d.typ_code.to_le_bytes());
    out.extend_from_slice(&0u32.to_le_bytes());
    out.extend_from_slice(&d.phys_addr.to_le_bytes());
    out.extend_from_slice(&d.virt_addr.to_le_bytes());
    out.extend_from_slice(&d.num_pages.to_le_bytes());
    out.extend_from_slice(&d.attr.to_le_bytes());
    for _ in 40..desc_size {
        out.push(0xee);
    }
}

#[test]
fn efi_map_with_stride_48_yields_two_descriptors() {
    // an EFI memory map tag with stride 48 and two 40-byte nominal
    // descriptors packed at 48-byte intervals
    let descs = sample_descs();
    let mut body = Vec::new();
    body.extend_from_slice(&48u32.to_le_bytes());
    body.extend_from_slice(&1u32.to_le_bytes());
    push_desc(&mut body, &descs[0], 48);
    push_desc(&mut body, &descs[1], 48);
    let view = TagView { typ: 17, body: &body };
    let map = EFIMemoryMapTag::from_view(&view).unwrap();
    assert_eq!(map.desc_size(), 48);
    assert_eq!(map.len(), 2);
    let first = map.desc(0);
    assert_eq!(first.physical_address(), 0x10_0000);
    assert_eq!(first.virtual_address(), 0);
    assert_eq!(first.size(), 256 * 4096);
    assert_eq!(first.typ(), EFIMemoryAreaType::EfiConventionalMemory);
    let second = map.desc(1);
    assert_eq!(second.physical_address(), 0x80_0000);
    assert_eq!(second.typ(), EFIMemoryAreaType::EfiLoaderData);
    assert_eq!(second.attr, 0x1);
}

#[test]
fn efi_map_stride_independence() {
    // building with stride = nominal + k recovers the same descriptors for
    // several k
    let descs = sample_descs();
    for desc_size in [40u32, 41, 48, 64, 80] {
        let map = EFIMemoryMapTag::new_with_desc_size(&descs, desc_size);
        assert_eq!(map.desc_size(), desc_size);
        assert_eq!(map.len(), 2);
        assert_eq!(map.desc(0), descs[0]);
        assert_eq!(map.desc(1), descs[1]);
        // the same holds after a serialize/decode round trip, and the
        // element region is one slot of the declared size per descriptor
        let tag_bytes = map.to_tag_bytes();
        assert_eq!(tag_bytes.body().len(), 8 + 2 * desc_size as usize);
        let view = TagView { typ: tag_bytes.typ(), body: tag_bytes.body().as_slice() };
        let decoded = EFIMemoryMapTag::from_view(&view).unwrap();
        assert_eq!(decoded.desc_size(), desc_size);
        assert_eq!(decoded.len(), 2);
        assert_eq!(decoded.desc(0), descs[0]);
        assert_eq!(decoded.desc(1), descs[1]);
    }
}

#[test]
fn efi_map_iterates_all_descriptors() {
    let descs = sample_descs();
    let map = EFIMemoryMapTag::new(&descs);
    let mut iter = map.memory_areas();
    assert_eq!(iter.next(), Some(descs[0]));
    assert_eq!(iter.next(), Some(descs[1]));
    assert_eq!(iter.next(), None);
}

#[test]
fn efi_map_set_desc_updates_in_place() {
    let descs = sample_descs();
    let mut map = EFIMemoryMapTag::new_with_desc_size(&descs, 48);
    let replacement = EFIMemoryDesc {
        typ_code: 8,
        phys_addr: 0xdead_0000,
        virt_addr: 0,
        num_pages: 1,
        attr: 0,
    };
    map.set_desc(0, replacement);
    assert_eq!(map.desc(0), replacement);
    assert_eq!(map.desc(1), descs[1]);
    assert_eq!(map.desc(0).typ(), EFIMemoryAreaType::EfiUnusableMemory);
}

#[test]
fn efi_desc_default_is_zeroed_reserved() {
    let d = EFIMemoryDesc::default();
    assert_eq!(d.typ(), EFIMemoryAreaType::EfiReservedMemoryType);
    assert_eq!(d.physical_address(), 0);
    assert_eq!(d.size(), 0);
}

#[test]
fn memory_map_round_trips_areas() {
    let areas = [
        MemoryArea::new(0, 0x9fc00, MemoryAreaType::Available),
        MemoryArea::new(0x9fc00, 0x400, MemoryAreaType::Reserved),
        MemoryArea::new(0xf0000, 0x10000, MemoryAreaType::AcpiAvailable),
        MemoryArea::new(0x100000, 0x7ee0000, MemoryAreaType::Available),
    ];
    let map = MemoryMapTag::new(&areas);
    assert_eq!(map.entry_size(), 24);
    assert_eq!(map.entry_version(), 0);
    assert_eq!(map.len(), 4);
    for (i, area) in areas.iter().enumerate() {
        assert_eq!(map.area(i), *area);
    }
    let tag_bytes = map.to_tag_bytes();
    // tag size = 8 header + 8 fixed body bytes + 24 bytes per entry
    assert_eq!(tag_bytes.body().len(), 8 + 24 * areas.len());
    let view = TagView { typ: tag_bytes.typ(), body: tag_bytes.body().as_slice() };
    let decoded = MemoryMapTag::from_view(&view).unwrap();
    assert_eq!(decoded.len(), 4);
    assert_eq!(decoded.area(2), areas[2]);
}

#[test]
fn memory_map_filters_available_areas() {
    let areas = [
        MemoryArea::new(0, 0x9fc00, MemoryAreaType::Available),
        MemoryArea::new(0x9fc00, 0x400, MemoryAreaType::Reserved),
        MemoryArea::new(0x100000, 0x7ee0000, MemoryAreaType::Available),
        MemoryArea::new(0xfffc0000, 0x40000, MemoryAreaType::Defective),
    ];
    let map = MemoryMapTag::new(&areas);
    let available = map.available_memory_areas();
    assert_eq!(available.len(), 2);
    assert_eq!(available[0], areas[0]);
    assert_eq!(available[1], areas[2]);
}

#[test]
fn memory_map_iterates_in_order() {
    let areas = [
        MemoryArea::new(1, 2, MemoryAreaType::Available),
        MemoryArea::new(3, 4, MemoryAreaType::ReservedHibernate),
    ];
    let map = MemoryMapTag::new(&areas);
    let mut iter = map.memory_areas();
    assert_eq!(iter.next(), Some(areas[0]));
    assert_eq!(iter.next(), Some(areas[1]));
    assert_eq!(iter.next(), None);
}

#[test]
fn memory_map_set_area_updates_in_place() {
    let areas = [
        MemoryArea::new(0, 100, MemoryAreaType::Available),
        MemoryArea::new(100, 100, MemoryAreaType::Available),
    ];
    let mut map = MemoryMapTag::new(&areas);
    let patched = MemoryArea::new(0, 50, MemoryAreaType::Reserved);
    map.set_area(0, patched);
    assert_eq!(map.area(0), patched);
    assert_eq!(map.area(1), areas[1]);
}

#[test]
fn memory_area_accessors_and_types() {
    let area = MemoryArea::new(0x1000, 0x2000, MemoryAreaType::AcpiAvailable);
    assert_eq!(area.start_address(), 0x1000);
    assert_eq!(area.end_address(), 0x3000);
    assert_eq!(area.size(), 0x2000);
    assert_eq!(area.typ(), MemoryAreaType::AcpiAvailable);
    assert_eq!(MemoryAreaType::Available.val(), 1);
    assert_eq!(MemoryAreaType::Reserved.val(), 2);
    assert_eq!(MemoryAreaType::AcpiAvailable.val(), 3);
    assert_eq!(MemoryAreaType::ReservedHibernate.val(), 4);
    assert_eq!(MemoryAreaType::Defective.val(), 5);
}

#[test]
fn unknown_memory_area_code_reads_as_reserved() {
    // a memory map tag with an entry whose type code is unrecognized
    let mut body = Vec::new();
    body.extend_from_slice(&24u32.to_le_bytes());
    body.extend_from_slice(&0u32.to_le_bytes());
    body.extend_from_slice(&0x4000u64.to_le_bytes());
    body.extend_from_slice(&0x1000u64.to_le_bytes());
    body.extend_from_slice(&99u32.to_le_bytes());
    body.extend_from_slice(&0u32.to_le_bytes());
    let view = TagView { typ: 6, body: &body };
    let map = MemoryMapTag::from_view(&view).unwrap();
    assert_eq!(map.len(), 1);
    assert_eq!(map.area(0).typ(), MemoryAreaType::Reserved);
    assert_eq!(map.area(0).start_address(), 0x4000);
}
