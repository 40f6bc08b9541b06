//! Decoding of route parameters: the call into the `base64` crate and the
//! UTF-8 check of std.

use vstd::prelude::*;

use vstd::utf8::{encode_utf8, valid_utf8};

verus! {

/// What `base64::decode` gives for the bytes of a text with the standard
/// alphabet: the decoded bytes, or the message of the decoding error.
pub uninterp spec fn base64_decoded(input: Seq<char>) -> Result<Seq<u8>, Seq<char>>;

/// The message of the error that `std::str::from_utf8` reports for bytes
/// that are not UTF-8.
pub uninterp spec fn utf8_error_text(bytes: Seq<u8>) -> Seq<char>;

/// Decodes base64 text with `base64::decode` (standard alphabet, padding
/// required); an error is turned into its message with `to_string`.  The
/// contract claims only that the result is the named function of the text.
#[verifier::external_body]
pub(crate) fn base64_decode(input: &str) -> (r: Result<Vec<u8>, String>)
    ensures
        match r {
            Ok(b) => base64_decoded(input@) == Ok::<Seq<u8>, Seq<char>>(b@),
            Err(m) => base64_decoded(input@) == Err::<Seq<u8>, Seq<char>>(m@),
        },
{
    base64::decode(input).map_err(|e| e.to_string())
}

/// Reads bytes as UTF-8 text with `std::str::from_utf8`; an error is turned
/// into its message with `to_string`.  The contract claims what std documents:
/// the bytes are accepted exactly when they are UTF-8, and the text then has
/// exactly these bytes.
#[verifier::external_body]
pub(crate) fn utf8_string(bytes: &[u8]) -> (r: Result<String, String>)
    ensures
        match r {
            Ok(s) => valid_utf8(bytes@) && encode_utf8(s@) == bytes@,
            Err(m) => !valid_utf8(bytes@) && m@ == utf8_error_text(bytes@),
        },
{
    std::str::from_utf8(bytes).map(String::from).map_err(|e| e.to_string())
}

} // verus!
