//! Text out of bytes.

use vstd::prelude::*;
use vstd::utf8::{decode_utf8, encode_utf8, encode_utf8_decode_utf8, valid_utf8};

verus! {

/// `core::str::from_utf8`: the bytes as a string slice where they are
/// well-formed UTF-8, nothing where they are not. The contract says so over
/// vstd's definition of UTF-8: the call succeeds exactly on `valid_utf8` input,
/// and the text that comes back is encoded by the very bytes that went in.
#[verifier::external_body]
pub(crate) fn from_utf8<'a>(bytes: &'a [u8]) -> (text: Option<&'a str>)
    ensures
        text is Some <==> valid_utf8(bytes@),
        text matches Some(s) ==> encode_utf8(s@) == bytes@,
{
    match core::str::from_utf8(bytes) {
        Ok(s) => Some(s),
        Err(_) => None,
    }
}

/// The text that `bytes` encode, where they are well-formed UTF-8.
pub open spec fn spec_text(bytes: Seq<u8>) -> Option<Seq<char>> {
    if valid_utf8(bytes) {
        Some(decode_utf8(bytes))
    } else {
        None
    }
}

/// The view of an optional string slice.
pub open spec fn text_view(text: Option<&str>) -> Option<Seq<char>> {
    match text {
        Some(s) => Some(s@),
        None => None,
    }
}

/// Reads `bytes` as UTF-8 text.
pub fn text_of<'a>(bytes: &'a [u8]) -> (text: Option<&'a str>)
    ensures
        text_view(text) == spec_text(bytes@),
{
    let text = from_utf8(bytes);
    proof {
        if let Some(s) = text {
            encode_utf8_decode_utf8(s@);
        }
    }
    text
}

/// Two texts with the same encoding are the same text.
pub proof fn encoding_is_injective(a: Seq<char>, b: Seq<char>)
    requires
        encode_utf8(a) == encode_utf8(b),
    ensures
        a == b,
{
    encode_utf8_decode_utf8(a);
    encode_utf8_decode_utf8(b);
}

} // verus!
