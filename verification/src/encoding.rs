//! Text from bytes.
use vstd::prelude::*;

verus! {

/// The characters that `String::from_utf8` decodes from a byte sequence, or
/// nothing when the bytes are not UTF-8.
pub uninterp spec fn utf8_decode(bytes: Seq<u8>) -> Option<Seq<char>>;

/// Decodes UTF-8 bytes with `String::from_utf8`: the text when the bytes
/// are UTF-8, its error otherwise. What the decoding is, is named by
/// `utf8_decode` and not spelled out.
#[verifier::external_body]
pub(crate) fn string_from_utf8(bytes: &[u8]) -> (r: Result<String, std::string::FromUtf8Error>)
    ensures
        match r {
            Ok(s) => utf8_decode(bytes@) == Some(s@),
            Err(_) => utf8_decode(bytes@) is None,
        },
{
    String::from_utf8(bytes.to_vec())
}

} // verus!
