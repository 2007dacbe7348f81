//! Bytes that a process printed, as text.

use vstd::prelude::*;
use vstd::utf8::{
    decode_utf8, encode_utf8, encode_utf8_decode_utf8, encode_utf8_valid_utf8, valid_utf8,
};

verus! {

/// What `String::from_utf8_lossy` makes of `bytes`.
pub uninterp spec fn lossy_text(bytes: Seq<u8>) -> Seq<char>;

/// Calls `String::from_utf8_lossy`. Its result depends on the bytes alone, and
/// bytes that are valid UTF-8 become the characters that they encode. Which
/// replacement characters stand for the rest is not stated.
#[verifier::external_body]
fn text_of_bytes(bytes: &Vec<u8>) -> (r: String)
    ensures
        r@ == lossy_text(bytes@),
        valid_utf8(bytes@) ==> r@ == decode_utf8(bytes@),
{
    String::from_utf8_lossy(bytes).into_owned()
}

/// The text of what a process printed: the characters that the bytes encode
/// where they are valid UTF-8, and whatever `String::from_utf8_lossy` makes of
/// them where they are not.
pub open spec fn decoded(bytes: Seq<u8>) -> Seq<char> {
    if valid_utf8(bytes) {
        decode_utf8(bytes)
    } else {
        lossy_text(bytes)
    }
}

/// The text of what a process printed.
pub fn decode(bytes: &Vec<u8>) -> (r: String)
    ensures
        r@ == decoded(bytes@),
{
    text_of_bytes(bytes)
}

/// What a process printed as UTF-8 is read as it was meant, and anything else as
/// `String::from_utf8_lossy` reads it.
pub proof fn law_printed_text_is_read(text: Seq<char>, bytes: Seq<u8>)
    ensures
        decoded(encode_utf8(text)) == text,
        !valid_utf8(bytes) ==> decoded(bytes) == lossy_text(bytes),
{
    encode_utf8_valid_utf8(text);
    encode_utf8_decode_utf8(text);
}

} // verus!
