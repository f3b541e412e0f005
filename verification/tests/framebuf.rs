use multiboot2::framebuffer::{FramebufferColor, FramebufferField, FramebufferTag,
    FramebufferType, FramebufferTypeId, UnknownFramebufferType};
use multiboot2::stream::TagView;
use multiboot2::StructuralError;

#[test]
fn framebuffer_rgb_round_trip() {
    let tag = FramebufferTag::new(
        0xfd00_0000,
        3200,
        800,
        600,
        32,
        FramebufferType::Rgb {
            red: FramebufferField { position: 16, size: 8 },
            green: FramebufferField { position: 8, size: 8 },
            blue: FramebufferField { position: 0, size: 8 },
        },
    );
    assert_eq!(tag.address(), 0xfd00_0000);
    assert_eq!(tag.pitch(), 3200);
    assert_eq!(tag.width(), 800);
    assert_eq!(tag.height(), 600);
    assert_eq!(tag.bpp(), 32);
    let decoded = tag.buffer_type().unwrap();
    assert_eq!(
        decoded,
        FramebufferType::Rgb {
            red: FramebufferField { position: 16, size: 8 },
            green: FramebufferField { position: 8, size: 8 },
            blue: FramebufferField { position: 0, size: 8 },
        }
    );
    let tag_bytes = tag.to_tag_bytes();
    assert_eq!(tag_bytes.typ(), 8);
    let view = TagView { typ: tag_bytes.typ(), body: tag_bytes.body().as_slice() };
    let reparsed = FramebufferTag::from_view(&view).unwrap();
    assert_eq!(reparsed.address(), 0xfd00_0000);
    assert_eq!(reparsed.buffer_type().unwrap(), decoded);
}

#[test]
fn framebuffer_indexed_round_trip() {
    let palette = vec![
        FramebufferColor { red: 255, green: 0, blue: 0 },
        FramebufferColor { red: 0, green: 255, blue: 0 },
        FramebufferColor { red: 0, green: 0, blue: 255 },
    ];
    let tag = FramebufferTag::new(
        0xa000_0000,
        320,
        320,
        200,
        8,
        FramebufferType::Indexed { palette: palette.clone() },
    );
    match tag.buffer_type().unwrap() {
        FramebufferType::Indexed { palette: decoded } => assert_eq!(decoded, palette),
        other => panic!("expected an indexed framebuffer, got {:?}", other),
    }
}

#[test]
fn framebuffer_text_round_trip() {
    let tag = FramebufferTag::new(0xb8000, 160, 80, 25, 16, FramebufferType::Text);
    assert_eq!(tag.buffer_type().unwrap(), FramebufferType::Text);
}

#[test]
fn framebuffer_unknown_discriminant_is_surfaced() {
    // fixed fields, discriminant 3 (unknown), reserved word, no variant data
    let mut body = Vec::new();
    body.extend_from_slice(&0xfd00_0000u64.to_le_bytes());
    body.extend_from_slice(&3200u32.to_le_bytes());
    body.extend_from_slice(&800u32.to_le_bytes());
    body.extend_from_slice(&600u32.to_le_bytes());
    body.push(32);
    body.push(3);
    body.extend_from_slice(&[0u8; 2]);
    let view = TagView { typ: 8, body: &body };
    let tag = FramebufferTag::from_view(&view).unwrap();
    assert_eq!(tag.buffer_type(), Err(UnknownFramebufferType(3)));
}

#[test]
fn framebuffer_rejects_palette_overrunning_body() {
    // discriminant 0 with a color count larger than the bytes supplied
    let mut body = Vec::new();
    body.extend_from_slice(&0u64.to_le_bytes());
    body.extend_from_slice(&0u32.to_le_bytes());
    body.extend_from_slice(&0u32.to_le_bytes());
    body.extend_from_slice(&0u32.to_le_bytes());
    body.push(8);
    body.push(0);
    body.extend_from_slice(&[0u8; 2]);
    body.extend_from_slice(&5u32.to_le_bytes()); // claims 5 colors
    body.extend_from_slice(&[1, 2, 3]); // supplies one
    let view = TagView { typ: 8, body: &body };
    assert_eq!(
        FramebufferTag::from_view(&view).err(),
        Some(StructuralError::InvalidBody)
    );
}

#[test]
fn framebuffer_type_id_codes() {
    assert_eq!(FramebufferTypeId::Indexed.val(), 0);
    assert_eq!(FramebufferTypeId::Rgb.val(), 1);
    assert_eq!(FramebufferTypeId::Text.val(), 2);
}
