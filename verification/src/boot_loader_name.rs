//! The boot loader name tag: its body is the name of the boot loader that
//! started the kernel, as a NUL-terminated UTF-8 string.

use crate::builder::TagBytes;
use crate::model::TagSpec;
use crate::stream::TagView;
use crate::text::{c_string_body, decode_text};
use crate::{StructuralError, TAG_TYPE_BOOT_LOADER_NAME};
use vstd::prelude::*;
use vstd::slice::{slice_subrange, slice_to_vec};
use vstd::utf8::{decode_utf8, encode_utf8, valid_utf8};

verus! {

/// An owned decoding of a boot loader name tag. Its view is the logical tag
/// it stands for: type code [`TAG_TYPE_BOOT_LOADER_NAME`] and the body
/// holding the NUL-terminated name.
pub struct BootLoaderNameTag {
    body: Vec<u8>,
}

impl View for BootLoaderNameTag {
    type V = TagSpec;

    closed spec fn view(&self) -> TagSpec {
        TagSpec { typ: TAG_TYPE_BOOT_LOADER_NAME, body: self.body@ }
    }
}

impl BootLoaderNameTag {
    /// The body always holds at least the terminating NUL byte, and the tag
    /// fits the 32-bit size field.
    #[verifier::type_invariant]
    pub closed spec fn inv(self) -> bool {
        &&& self@.body.len() >= 1
        &&& 8 + self@.body.len() <= u32::MAX
    }

    /// Builds the tag that names the boot loader `name`. The name must not
    /// contain a NUL character, which the C-style body could not carry, and
    /// must leave the tag within the 32-bit size field.
    pub fn new(name: &str) -> (r: Self)
        requires
            forall|i: int|
                0 <= i < encode_utf8(name@).len() ==> #[trigger] encode_utf8(name@)[i] != 0,
            encode_utf8(name@).len() + 9 <= u32::MAX,
        ensures
            r@ == (TagSpec { typ: TAG_TYPE_BOOT_LOADER_NAME, body: encode_utf8(name@).push(0u8) }),
    {
        BootLoaderNameTag { body: c_string_body(name) }
    }

    /// Decodes a tag view as a boot loader name tag. Fails exactly when the
    /// view is not a boot loader name tag, its body cannot fit a tag's size
    /// field, or the body is empty and so cannot hold the terminating NUL.
    pub fn from_view(tv: &TagView) -> (r: Result<Self, StructuralError>)
        ensures
            r is Ok <==> (tv@.typ == TAG_TYPE_BOOT_LOADER_NAME && tv@.body.len() + 8 <= u32::MAX
                && tv@.body.len() >= 1),
            match r {
                Ok(t) => t@ == tv@,
                Err(e) => {
                    &&& e == (if tv@.typ != TAG_TYPE_BOOT_LOADER_NAME {
                        StructuralError::TypeMismatch
                    } else if tv@.body.len() + 8 > u32::MAX {
                        StructuralError::TooLarge
                    } else {
                        StructuralError::InvalidBody
                    })
                },
            },
    {
        if tv.typ != TAG_TYPE_BOOT_LOADER_NAME {
            return Err(StructuralError::TypeMismatch);
        }
        let n = tv.body.len();
        if n as u64 > (u32::MAX - 8) as u64 {
            return Err(StructuralError::TooLarge);
        }
        if n < 1 {
            return Err(StructuralError::InvalidBody);
        }
        Ok(BootLoaderNameTag { body: slice_to_vec(tv.body) })
    }

    /// Reads the name of the boot loader: the body's bytes before the final
    /// NUL, decoded as UTF-8. Fails exactly when those bytes are not valid
    /// UTF-8; the failure does not disturb the tag or its siblings.
    pub fn name(&self) -> (r: Result<&str, crate::EncodingError>)
        ensures
            r is Ok <==> valid_utf8(self@.body.drop_last()),
            r matches Ok(s) ==> s@ == decode_utf8(self@.body.drop_last()) && encode_utf8(s@)
                == self@.body.drop_last(),
    {
        proof {
            use_type_invariant(&*self);
        }
        let n = self.body.len();
        let text = slice_subrange(self.body.as_slice(), 0, n - 1);
        proof {
            assert(text@ =~= self@.body.drop_last());
        }
        decode_text(text)
    }

    /// The tag, serialized for the assembler.
    pub fn to_tag_bytes(&self) -> (r: TagBytes)
        ensures
            r@ == self@,
    {
        proof {
            use_type_invariant(&*self);
        }
        TagBytes::new(TAG_TYPE_BOOT_LOADER_NAME, slice_to_vec(self.body.as_slice()))
    }
}

} // verus!
