//! Strict UTF-8 decoding.

use crate::extract::ExtractError;
use vstd::prelude::*;
use vstd::utf8::{decode_utf8, encode_utf8, encode_utf8_decode_utf8, valid_utf8};

verus! {

/// The words in which std describes the first fault of bytes that are no UTF-8.
pub uninterp spec fn utf8_fault_of(bytes: Seq<u8>) -> Seq<char>;

/// `String::from_utf8`, the error as text. It succeeds on valid UTF-8 alone,
/// and the string then has exactly the given bytes. Of the error's text it is
/// claimed that it is a function of the bytes.
#[verifier::external_body]
fn from_utf8(bytes: &[u8]) -> (result: Result<String, String>)
    ensures
        match result {
            Ok(s) => valid_utf8(bytes@) && encode_utf8(s@) == bytes@,
            Err(text) => !valid_utf8(bytes@) && text@ == utf8_fault_of(bytes@),
        },
{
    String::from_utf8(bytes.to_vec()).map_err(|e| e.to_string())
}

/// The text that `bytes` encode.
pub fn decode(bytes: &[u8]) -> (result: Result<String, ExtractError>)
    ensures
        match result {
            Ok(text) => valid_utf8(bytes@) && text@ == decode_utf8(bytes@),
            Err(e) => !valid_utf8(bytes@) && e is InvalidUtf8 && e->InvalidUtf8_0@
                == utf8_fault_of(bytes@),
        },
{
    match from_utf8(bytes) {
        Ok(text) => {
            proof {
                encode_utf8_decode_utf8(text@);
            }
            Ok(text)
        },
        Err(text) => Err(ExtractError::InvalidUtf8(text)),
    }
}

} // verus!
