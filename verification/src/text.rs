//! UTF-8 text decoding for string-carrying tag bodies. A string tag's body
//! is a C-style string: the UTF-8 bytes of the text followed by one NUL
//! byte. Bytes that are not valid UTF-8 are reported as an
//! [`EncodingError`], never a panic.

use crate::EncodingError;
use vstd::prelude::*;
use vstd::slice::slice_to_vec;
use vstd::utf8::{decode_utf8, encode_utf8, encode_utf8_decode_utf8, valid_utf8};

verus! {

/// Relies on `core::str::from_utf8`: it returns `Ok` exactly when the bytes
/// are valid UTF-8, and then the returned string slice is the one whose
/// UTF-8 encoding is the input bytes.
#[verifier::external_body]
fn utf8_from_bytes<'a>(bytes: &'a [u8]) -> (r: Option<&'a str>)
    ensures
        r is Some <==> valid_utf8(bytes@),
        r matches Some(s) ==> encode_utf8(s@) == bytes@,
{
    core::str::from_utf8(bytes).ok()
}

/// Decodes `bytes` as UTF-8 text: returns the characters whose UTF-8
/// encoding is exactly `bytes`, or an [`EncodingError`] exactly when no such
/// characters exist.
pub fn decode_text<'a>(bytes: &'a [u8]) -> (r: Result<&'a str, EncodingError>)
    ensures
        r is Ok <==> valid_utf8(bytes@),
        r matches Ok(s) ==> s@ == decode_utf8(bytes@) && encode_utf8(s@) == bytes@,
{
    match utf8_from_bytes(bytes) {
        Some(s) => {
            proof {
                encode_utf8_decode_utf8(s@);
            }
            Ok(s)
        },
        None => Err(EncodingError),
    }
}

/// Builds the body of a string tag carrying `s`: the UTF-8 bytes of `s`
/// followed by a single NUL byte.
pub fn c_string_body(s: &str) -> (r: Vec<u8>)
    ensures
        r@ == encode_utf8(s@).push(0u8),
{
    let bytes = s.as_bytes();
    let mut body = slice_to_vec(bytes);
    body.push(0u8);
    body
}

} // verus!
