//! The framebuffer tag: a nested tagged union. The body begins with fixed
//! fields (address, pitch, width, height, bits per pixel), then a one-byte
//! discriminant that selects how the remaining bytes are read: a
//! count-prefixed palette of 3-byte colors, three RGB bit-field
//! descriptors, or nothing for text mode. An unrecognized discriminant is
//! surfaced as a typed error, never coerced to a known variant.

use crate::builder::TagBytes;
use crate::cursor::ByteCursor;
use crate::model::TagSpec;
use crate::stream::TagView;
use crate::{StructuralError, TAG_TYPE_FRAMEBUFFER};
use vstd::bytes::{lemma_auto_spec_u32_to_from_le_bytes, spec_u32_from_le_bytes,
    spec_u32_to_le_bytes, spec_u64_from_le_bytes, spec_u64_to_le_bytes, u32_to_le_bytes,
    u64_to_le_bytes};
use vstd::prelude::*;
use vstd::slice::slice_to_vec;

verus! {

/// One RGB color bit-field: the bit position of its least significant bit
/// and its width in bits.
#[derive(Clone, Copy, Debug, PartialEq, Eq, Structural)]
pub struct FramebufferField {
    /// Color field position.
    pub position: u8,
    /// Color mask size.
    pub size: u8,
}

/// A framebuffer color descriptor in the palette.
#[derive(Clone, Copy, Debug, PartialEq, Eq, Structural)]
pub struct FramebufferColor {
    /// The red component of the color.
    pub red: u8,
    /// The green component of the color.
    pub green: u8,
    /// The blue component of the color.
    pub blue: u8,
}

/// The known framebuffer type discriminants.
#[derive(Clone, Copy, Debug, PartialEq, Eq, Structural)]
pub enum FramebufferTypeId {
    /// Indexed color: a palette follows.
    Indexed,
    /// Direct RGB color: three bit-field descriptors follow.
    Rgb,
    /// EGA text mode: nothing follows.
    Text,
}

impl FramebufferTypeId {
    /// The discriminant byte of this framebuffer type.
    pub fn val(&self) -> (r: u8)
        ensures
            r == (match *self {
                FramebufferTypeId::Indexed => 0u8,
                FramebufferTypeId::Rgb => 1u8,
                FramebufferTypeId::Text => 2u8,
            }),
    {
        match self {
            FramebufferTypeId::Indexed => 0,
            FramebufferTypeId::Rgb => 1,
            FramebufferTypeId::Text => 2,
        }
    }
}

/// The decoded variant part of a framebuffer tag.
#[derive(Debug, PartialEq, Eq)]
pub enum FramebufferType {
    /// Indexed color: the palette of colors.
    Indexed { palette: Vec<FramebufferColor> },
    /// Direct RGB color: the bit fields of the three components.
    Rgb { red: FramebufferField, green: FramebufferField, blue: FramebufferField },
    /// EGA text mode. Width and height are in characters, pitch is bytes
    /// per text line, and bits per pixel is 16.
    Text,
}

/// Error carrying an unrecognized framebuffer discriminant byte.
#[derive(Clone, Copy, Debug, PartialEq, Eq, Structural)]
pub struct UnknownFramebufferType(pub u8);

/// The discriminant byte a variant is written with.
pub open spec fn variant_type_no(ft: FramebufferType) -> u8 {
    match ft {
        FramebufferType::Indexed { .. } => 0,
        FramebufferType::Rgb { .. } => 1,
        FramebufferType::Text => 2,
    }
}

/// The palette serialized as 3 bytes per color, in order.
pub open spec fn colors_bytes(s: Seq<FramebufferColor>) -> Seq<u8>
    decreases s.len(),
{
    if s.len() == 0 {
        Seq::empty()
    } else {
        seq![s[0].red, s[0].green, s[0].blue] + colors_bytes(s.drop_first())
    }
}

/// The serialized palette is 3 bytes per color, and each color's bytes sit
/// at 3 times its index.
pub proof fn lemma_colors_bytes(s: Seq<FramebufferColor>)
    ensures
        colors_bytes(s).len() == 3 * s.len(),
        forall|i: int|
            0 <= i < s.len() ==> colors_bytes(s)[3 * i] == (#[trigger] s[i]).red && colors_bytes(
                s,
            )[3 * i + 1] == s[i].green && colors_bytes(s)[3 * i + 2] == s[i].blue,
    decreases s.len(),
{
    if s.len() == 0 {
    } else {
        lemma_colors_bytes(s.drop_first());
        assert forall|i: int|
            0 <= i < s.len() implies colors_bytes(s)[3 * i] == (#[trigger] s[i]).red
            && colors_bytes(s)[3 * i + 1] == s[i].green && colors_bytes(s)[3 * i + 2]
            == s[i].blue by {
            if i > 0 {
                assert(s.drop_first()[i - 1] == s[i]);
                assert(colors_bytes(s)[3 * i] == colors_bytes(s.drop_first())[3 * (i - 1)]);
                assert(colors_bytes(s)[3 * i + 1] == colors_bytes(s.drop_first())[3 * (i - 1)
                    + 1]);
                assert(colors_bytes(s)[3 * i + 2] == colors_bytes(s.drop_first())[3 * (i - 1)
                    + 2]);
            }
        }
    }
}

/// Appending a color appends its 3 bytes.
pub proof fn lemma_colors_bytes_push(s: Seq<FramebufferColor>, c: FramebufferColor)
    ensures
        colors_bytes(s.push(c)) == colors_bytes(s) + seq![c.red, c.green, c.blue],
    decreases s.len(),
{
    assert(s.push(c)[0] == s.push(c).first());
    if s.len() == 0 {
        assert(s.push(c)[0] == c);
        assert(s.push(c).drop_first() =~= Seq::<FramebufferColor>::empty());
        assert(colors_bytes(s.push(c).drop_first()) =~= Seq::<u8>::empty());
        assert(colors_bytes(s) =~= Seq::<u8>::empty());
        assert(colors_bytes(s.push(c)) =~= colors_bytes(s) + seq![c.red, c.green, c.blue]);
    } else {
        assert(s.push(c)[0] == s[0]);
        assert(s.push(c).drop_first() =~= s.drop_first().push(c));
        lemma_colors_bytes_push(s.drop_first(), c);
        let h = seq![s[0].red, s[0].green, s[0].blue];
        let b = colors_bytes(s.drop_first());
        let t = seq![c.red, c.green, c.blue];
        assert(colors_bytes(s.push(c).drop_first()) == b + t);
        assert(colors_bytes(s.push(c)) == h + (b + t));
        assert(h + (b + t) =~= (h + b) + t);
        assert(colors_bytes(s) == h + b);
    }
}

/// The bytes that follow the reserved word for a given variant: a
/// count-prefixed palette, the six bit-field bytes, or nothing.
pub open spec fn variant_rest_bytes(ft: FramebufferType) -> Seq<u8> {
    match ft {
        FramebufferType::Indexed { palette } => spec_u32_to_le_bytes(palette@.len() as u32)
            + colors_bytes(palette@),
        FramebufferType::Rgb { red, green, blue } => seq![
            red.position,
            red.size,
            green.position,
            green.size,
            blue.position,
            blue.size,
        ],
        FramebufferType::Text => Seq::empty(),
    }
}

/// The variant bytes of a framebuffer body are long enough for the layout
/// its discriminant selects: a palette body holds its color count and that
/// many colors, an RGB body holds the six bit-field bytes. Discriminants
/// beyond the known ones impose nothing: their layout is unknown and is
/// carried through untouched.
pub open spec fn fb_variant_ok(body: Seq<u8>) -> bool {
    let rest = body.skip(24);
    &&& (body[21] == 0 ==> rest.len() >= 4 && 4 + 3 * (spec_u32_from_le_bytes(
        rest.subrange(0, 4),
    ) as int) <= rest.len())
    &&& (body[21] == 1 ==> rest.len() >= 6)
}

/// An owned decoding of a framebuffer tag: the fixed fields, the
/// discriminant, and the variant bytes that follow.
pub struct FramebufferTag {
    address: u64,
    pitch: u32,
    width: u32,
    height: u32,
    bpp: u8,
    type_no: u8,
    rest: Vec<u8>,
}

impl FramebufferTag {
    /// The tag fits the 32-bit size field, and the variant bytes are long
    /// enough for the discriminant's layout, so reading the variant never
    /// reaches past them.
    #[verifier::type_invariant]
    pub closed spec fn inv(self) -> bool {
        &&& 32 + self.rest@.len() <= u32::MAX
        &&& (self.type_no == 0 ==> self.rest@.len() >= 4 && self.rest@.len() >= 4
            + 3 * (spec_u32_from_le_bytes(self.rest@.subrange(0, 4)) as int))
        &&& (self.type_no == 1 ==> self.rest@.len() >= 6)
    }

    /// The framebuffer's physical address.
    pub closed spec fn address_spec(self) -> u64 {
        self.address
    }

    /// The pitch in bytes.
    pub closed spec fn pitch_spec(self) -> u32 {
        self.pitch
    }

    /// The width in pixels (or characters, in text mode).
    pub closed spec fn width_spec(self) -> u32 {
        self.width
    }

    /// The height in pixels (or characters, in text mode).
    pub closed spec fn height_spec(self) -> u32 {
        self.height
    }

    /// Bits per pixel.
    pub closed spec fn bpp_spec(self) -> u8 {
        self.bpp
    }

    /// The raw discriminant byte.
    pub closed spec fn type_no_spec(self) -> u8 {
        self.type_no
    }

    /// The variant bytes after the discriminant and the reserved word.
    pub closed spec fn rest_spec(self) -> Seq<u8> {
        self.rest@
    }

    /// The body bytes of the tag: the fixed fields, the discriminant, a
    /// zero reserved word, then the variant bytes.
    pub open spec fn body_spec(self) -> Seq<u8> {
        spec_u64_to_le_bytes(self.address_spec()) + spec_u32_to_le_bytes(self.pitch_spec())
            + spec_u32_to_le_bytes(self.width_spec()) + spec_u32_to_le_bytes(self.height_spec())
            + seq![self.bpp_spec(), self.type_no_spec(), 0u8, 0u8] + self.rest_spec()
    }

    /// The logical tag this framebuffer description stands for.
    pub open spec fn tag_spec(self) -> TagSpec {
        TagSpec { typ: TAG_TYPE_FRAMEBUFFER, body: self.body_spec() }
    }

    /// Builds a framebuffer tag from the fixed fields and a variant. An
    /// indexed palette must leave the tag within the 32-bit size field.
    pub fn new(
        address: u64,
        pitch: u32,
        width: u32,
        height: u32,
        bpp: u8,
        buffer_type: FramebufferType,
    ) -> (r: Self)
        requires
            (buffer_type matches FramebufferType::Indexed { palette } ==> 36 + 3 * palette@.len()
                <= u32::MAX),
        ensures
            r.address_spec() == address,
            r.pitch_spec() == pitch,
            r.width_spec() == width,
            r.height_spec() == height,
            r.bpp_spec() == bpp,
            r.type_no_spec() == variant_type_no(buffer_type),
            r.rest_spec() == variant_rest_bytes(buffer_type),
    {
        match buffer_type {
            FramebufferType::Indexed { palette } => {
                let n = palette.len();
                let mut rest = u32_to_le_bytes(n as u32);
                let mut i: usize = 0;
                proof {
                    lemma_colors_bytes(palette@);
                    assert(palette@.take(0) =~= Seq::<FramebufferColor>::empty());
                    assert(colors_bytes(palette@.take(0)) =~= Seq::<u8>::empty());
                    assert(rest@ =~= spec_u32_to_le_bytes(n as u32) + colors_bytes(
                        palette@.take(0),
                    ));
                }
                while i < n
                    invariant
                        0 <= i <= n,
                        n == palette@.len(),
                        rest@ == spec_u32_to_le_bytes(n as u32) + colors_bytes(
                            palette@.take(i as int),
                        ),
                    decreases n - i,
                {
                    let c = palette[i];
                    rest.push(c.red);
                    rest.push(c.green);
                    rest.push(c.blue);
                    proof {
                        lemma_colors_bytes_push(palette@.take(i as int), palette@[i as int]);
                        assert(palette@.take(i as int).push(palette@[i as int]) =~= palette@.take(
                            i + 1,
                        ));
                        assert(rest@ =~= spec_u32_to_le_bytes(n as u32) + colors_bytes(
                            palette@.take(i + 1),
                        ));
                    }
                    i = i + 1;
                }
                proof {
                    assert(palette@.take(n as int) =~= palette@);
                    lemma_auto_spec_u32_to_from_le_bytes();
                    lemma_colors_bytes(palette@);
                    assert(rest@.subrange(0, 4) =~= spec_u32_to_le_bytes(n as u32));
                }
                FramebufferTag { address, pitch, width, height, bpp, type_no: 0, rest }
            },
            FramebufferType::Rgb { red, green, blue } => {
                let mut rest: Vec<u8> = Vec::new();
                rest.push(red.position);
                rest.push(red.size);
                rest.push(green.position);
                rest.push(green.size);
                rest.push(blue.position);
                rest.push(blue.size);
                proof {
                    assert(rest@ =~= variant_rest_bytes(
                        FramebufferType::Rgb { red, green, blue },
                    ));
                }
                FramebufferTag { address, pitch, width, height, bpp, type_no: 1, rest }
            },
            FramebufferType::Text => {
                let rest: Vec<u8> = Vec::new();
                proof {
                    assert(rest@ =~= Seq::<u8>::empty());
                }
                FramebufferTag { address, pitch, width, height, bpp, type_no: 2, rest }
            },
        }
    }

    /// Decodes a tag view as a framebuffer tag. Fails exactly when the view
    /// has the wrong type code, cannot fit a tag's size field, lacks the
    /// 24-byte fixed part, or declares a known variant whose layout reaches
    /// past the body: a palette longer than the bytes supplied for it, or
    /// missing bit-field bytes. An unrecognized discriminant is accepted
    /// here; reading the variant reports it.
    pub fn from_view(tv: &TagView) -> (r: Result<Self, StructuralError>)
        ensures
            r is Ok <==> (tv@.typ == TAG_TYPE_FRAMEBUFFER && tv@.body.len() + 8 <= u32::MAX
                && tv@.body.len() >= 24 && fb_variant_ok(tv@.body)),
            match r {
                Ok(t) => {
                    &&& t.address_spec() == spec_u64_from_le_bytes(tv@.body.subrange(0, 8))
                    &&& t.pitch_spec() == spec_u32_from_le_bytes(tv@.body.subrange(8, 12))
                    &&& t.width_spec() == spec_u32_from_le_bytes(tv@.body.subrange(12, 16))
                    &&& t.height_spec() == spec_u32_from_le_bytes(tv@.body.subrange(16, 20))
                    &&& t.bpp_spec() == tv@.body[20]
                    &&& t.type_no_spec() == tv@.body[21]
                    &&& t.rest_spec() == tv@.body.skip(24)
                },
                Err(e) => {
                    &&& e == (if tv@.typ != TAG_TYPE_FRAMEBUFFER {
                        StructuralError::TypeMismatch
                    } else if tv@.body.len() + 8 > u32::MAX {
                        StructuralError::TooLarge
                    } else {
                        StructuralError::InvalidBody
                    })
                },
            },
    {
        if tv.typ != TAG_TYPE_FRAMEBUFFER {
            return Err(StructuralError::TypeMismatch);
        }
        let n = tv.body.len();
        if n as u64 > (u32::MAX - 8) as u64 {
            return Err(StructuralError::TooLarge);
        }
        if n < 24 {
            return Err(StructuralError::InvalidBody);
        }
        let mut cur = ByteCursor::new(tv.body);
        let address = cur.read_u64();
        let pitch = cur.read_u32();
        let width = cur.read_u32();
        let height = cur.read_u32();
        let bpp = cur.read_u8();
        let type_no = cur.read_u8();
        cur.skip(2);
        let rest = slice_to_vec(cur.rest());
        proof {
            assert(rest@ =~= tv@.body.skip(24));
        }
        if type_no == 0 {
            if rest.len() < 4 {
                return Err(StructuralError::InvalidBody);
            }
            let mut rcur = ByteCursor::new(rest.as_slice());
            let num_colors = rcur.read_u32();
            if ((rest.len() - 4) as u64) < 3 * (num_colors as u64) {
                return Err(StructuralError::InvalidBody);
            }
        } else if type_no == 1 {
            if rest.len() < 6 {
                return Err(StructuralError::InvalidBody);
            }
        }
        Ok(FramebufferTag { address, pitch, width, height, bpp, type_no, rest })
    }

    /// The framebuffer's physical address.
    pub fn address(&self) -> (r: u64)
        ensures
            r == self.address_spec(),
    {
        self.address
    }

    /// The pitch in bytes.
    pub fn pitch(&self) -> (r: u32)
        ensures
            r == self.pitch_spec(),
    {
        self.pitch
    }

    /// The framebuffer width in pixels (characters in text mode).
    pub fn width(&self) -> (r: u32)
        ensures
            r == self.width_spec(),
    {
        self.width
    }

    /// The framebuffer height in pixels (characters in text mode).
    pub fn height(&self) -> (r: u32)
        ensures
            r == self.height_spec(),
    {
        self.height
    }

    /// Bits per pixel.
    pub fn bpp(&self) -> (r: u8)
        ensures
            r == self.bpp_spec(),
    {
        self.bpp
    }

    /// Reads the variant selected by the discriminant: the palette for
    /// indexed color, the three bit fields for direct RGB, nothing for text
    /// mode. An unrecognized discriminant is reported as the typed error
    /// carrying the raw byte, exactly when the discriminant is above 2.
    pub fn buffer_type(&self) -> (r: Result<FramebufferType, UnknownFramebufferType>)
        ensures
            self.type_no_spec() > 2 <==> r == Err::<FramebufferType, UnknownFramebufferType>(
                UnknownFramebufferType(self.type_no_spec()),
            ),
            self.type_no_spec() == 2 ==> r == Ok::<FramebufferType, UnknownFramebufferType>(
                FramebufferType::Text,
            ),
            self.type_no_spec() == 1 ==> (r matches Ok(FramebufferType::Rgb { red, green, blue })
                && red.position == self.rest_spec()[0] && red.size == self.rest_spec()[1]
                && green.position == self.rest_spec()[2] && green.size == self.rest_spec()[3]
                && blue.position == self.rest_spec()[4] && blue.size == self.rest_spec()[5]),
            self.type_no_spec() == 0 ==> (r matches Ok(FramebufferType::Indexed { palette })
                && palette@.len() == spec_u32_from_le_bytes(self.rest_spec().subrange(0, 4))
                && (forall|i: int|
                0 <= i < palette@.len() ==> (#[trigger] palette@[i]).red == self.rest_spec()[4 + 3
                    * i] && palette@[i].green == self.rest_spec()[4 + 3 * i + 1]
                    && palette@[i].blue == self.rest_spec()[4 + 3 * i + 2])),
    {
        proof {
            use_type_invariant(&*self);
        }
        let mut cur = ByteCursor::new(self.rest.as_slice());
        if self.type_no == 0 {
            let num_colors = cur.read_u32();
            let n = num_colors as usize;
            let mut palette: Vec<FramebufferColor> = Vec::new();
            let mut i: usize = 0;
            while i < n
                invariant
                    0 <= i <= n,
                    n == spec_u32_from_le_bytes(self.rest_spec().subrange(0, 4)),
                    self.rest_spec().len() >= 4 + 3 * n,
                    cur.wf(),
                    cur.buf_spec() == self.rest_spec(),
                    cur.pos_spec() == 4 + 3 * i,
                    palette@.len() == i,
                    forall|j: int|
                        0 <= j < i ==> (#[trigger] palette@[j]).red == self.rest_spec()[4 + 3 * j]
                            && palette@[j].green == self.rest_spec()[4 + 3 * j + 1]
                            && palette@[j].blue == self.rest_spec()[4 + 3 * j + 2],
                decreases n - i,
            {
                let red = cur.read_u8();
                let green = cur.read_u8();
                let blue = cur.read_u8();
                palette.push(FramebufferColor { red, green, blue });
                i = i + 1;
            }
            Ok(FramebufferType::Indexed { palette })
        } else if self.type_no == 1 {
            let red_pos = cur.read_u8();
            let red_size = cur.read_u8();
            let green_pos = cur.read_u8();
            let green_size = cur.read_u8();
            let blue_pos = cur.read_u8();
            let blue_size = cur.read_u8();
            Ok(
                FramebufferType::Rgb {
                    red: FramebufferField { position: red_pos, size: red_size },
                    green: FramebufferField { position: green_pos, size: green_size },
                    blue: FramebufferField { position: blue_pos, size: blue_size },
                },
            )
        } else if self.type_no == 2 {
            Ok(FramebufferType::Text)
        } else {
            Err(UnknownFramebufferType(self.type_no))
        }
    }

    /// The tag, serialized for the assembler.
    pub fn to_tag_bytes(&self) -> (r: TagBytes)
        ensures
            r@ == self.tag_spec(),
    {
        proof {
            use_type_invariant(&*self);
        }
        let mut body = u64_to_le_bytes(self.address);
        let mut pitch_bytes = u32_to_le_bytes(self.pitch);
        body.append(&mut pitch_bytes);
        let mut width_bytes = u32_to_le_bytes(self.width);
        body.append(&mut width_bytes);
        let mut height_bytes = u32_to_le_bytes(self.height);
        body.append(&mut height_bytes);
        body.push(self.bpp);
        body.push(self.type_no);
        body.push(0u8);
        body.push(0u8);
        body.extend_from_slice(self.rest.as_slice());
        proof {
            assert(body@ =~= self.body_spec());
        }
        TagBytes::new(TAG_TYPE_FRAMEBUFFER, body)
    }
}

} // verus!
