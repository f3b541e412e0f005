//! The SMBIOS tag: a copy of the firmware's SMBIOS tables together with
//! their version. The body is the major and minor version bytes, six
//! reserved bytes written as zero, and then the raw tables.

use crate::builder::TagBytes;
use crate::model::TagSpec;
use crate::stream::TagView;
use crate::{StructuralError, TAG_TYPE_SMBIOS};
use vstd::prelude::*;
use vstd::slice::{slice_subrange, slice_to_vec};

verus! {

/// An owned decoding of an SMBIOS tag.
pub struct SmbiosTag {
    major: u8,
    minor: u8,
    tables: Vec<u8>,
}

impl SmbiosTag {
    /// The tag fits the 32-bit size field.
    #[verifier::type_invariant]
    pub closed spec fn inv(self) -> bool {
        16 + self.tables@.len() <= u32::MAX
    }

    /// The SMBIOS major version.
    pub closed spec fn major_spec(self) -> u8 {
        self.major
    }

    /// The SMBIOS minor version.
    pub closed spec fn minor_spec(self) -> u8 {
        self.minor
    }

    /// The raw bytes of the SMBIOS tables.
    pub closed spec fn tables_spec(self) -> Seq<u8> {
        self.tables@
    }

    /// The body bytes of the tag: the two version bytes, six reserved zero
    /// bytes, then the tables.
    pub open spec fn body_spec(self) -> Seq<u8> {
        seq![self.major_spec(), self.minor_spec(), 0u8, 0u8, 0u8, 0u8, 0u8, 0u8]
            + self.tables_spec()
    }

    /// The logical tag this stands for.
    pub open spec fn tag_spec(self) -> TagSpec {
        TagSpec { typ: TAG_TYPE_SMBIOS, body: self.body_spec() }
    }

    /// Builds the tag from a version and a copy of the tables. The tables
    /// must leave the tag within the 32-bit size field.
    pub fn new(major: u8, minor: u8, tables: &[u8]) -> (r: Self)
        requires
            tables@.len() + 16 <= u32::MAX,
        ensures
            r.major_spec() == major,
            r.minor_spec() == minor,
            r.tables_spec() == tables@,
    {
        SmbiosTag { major, minor, tables: slice_to_vec(tables) }
    }

    /// Decodes a tag view as an SMBIOS tag. Fails exactly when the view has
    /// the wrong type code, cannot fit a tag's size field, or lacks the
    /// 8-byte fixed part of the body.
    pub fn from_view(tv: &TagView) -> (r: Result<Self, StructuralError>)
        ensures
            r is Ok <==> (tv@.typ == TAG_TYPE_SMBIOS && tv@.body.len() + 8 <= u32::MAX
                && tv@.body.len() >= 8),
            match r {
                Ok(t) => {
                    &&& t.major_spec() == tv@.body[0]
                    &&& t.minor_spec() == tv@.body[1]
                    &&& t.tables_spec() == tv@.body.skip(8)
                },
                Err(e) => {
                    &&& e == (if tv@.typ != TAG_TYPE_SMBIOS {
                        StructuralError::TypeMismatch
                    } else if tv@.body.len() + 8 > u32::MAX {
                        StructuralError::TooLarge
                    } else {
                        StructuralError::InvalidBody
                    })
                },
            },
    {
        if tv.typ != TAG_TYPE_SMBIOS {
            return Err(StructuralError::TypeMismatch);
        }
        let n = tv.body.len();
        if n as u64 > (u32::MAX - 8) as u64 {
            return Err(StructuralError::TooLarge);
        }
        if n < 8 {
            return Err(StructuralError::InvalidBody);
        }
        let major = tv.body[0];
        let minor = tv.body[1];
        let tables = slice_to_vec(slice_subrange(tv.body, 8, n));
        Ok(SmbiosTag { major, minor, tables })
    }

    /// The SMBIOS major version.
    pub fn major(&self) -> (r: u8)
        ensures
            r == self.major_spec(),
    {
        self.major
    }

    /// The SMBIOS minor version.
    pub fn minor(&self) -> (r: u8)
        ensures
            r == self.minor_spec(),
    {
        self.minor
    }

    /// The raw bytes of the SMBIOS tables.
    pub fn tables(&self) -> (r: &[u8])
        ensures
            r@ == self.tables_spec(),
    {
        self.tables.as_slice()
    }

    /// The tag, serialized for the assembler.
    pub fn to_tag_bytes(&self) -> (r: TagBytes)
        ensures
            r@ == self.tag_spec(),
    {
        proof {
            use_type_invariant(&*self);
        }
        let mut body: Vec<u8> = Vec::new();
        body.push(self.major);
        body.push(self.minor);
        let mut k: usize = 0;
        while k < 6
            invariant
                0 <= k <= 6,
                body@ == seq![self.major_spec(), self.minor_spec()] + Seq::new(
                    k as nat,
                    |m: int| 0u8,
                ),
            decreases 6 - k,
        {
            body.push(0u8);
            proof {
                assert(body@ =~= seq![self.major_spec(), self.minor_spec()] + Seq::new(
                    (k + 1) as nat,
                    |m: int| 0u8,
                ));
            }
            k = k + 1;
        }
        body.extend_from_slice(self.tables.as_slice());
        proof {
            assert(body@ =~= self.body_spec());
        }
        TagBytes::new(TAG_TYPE_SMBIOS, body)
    }
}

} // verus!
