use vstd::prelude::*;
use vstd::utf8::*;

verus! {

/// `String::from_utf8` of the standard library, with its error dropped.
///
/// Trusted: the call gives a string exactly when the bytes are well-formed
/// UTF-8, and the string then holds the characters that the bytes encode.
#[verifier::external_body]
pub(crate) fn string_from_utf8(bytes: Vec<u8>) -> (text: Option<String>)
    ensures
        text is Some <==> valid_utf8(bytes@),
        text matches Some(s) ==> s@ == decode_utf8(bytes@),
{
    String::from_utf8(bytes).ok()
}

} // verus!
