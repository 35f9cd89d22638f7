//! Base64 transport for shared alias bundles.
use vstd::prelude::*;
use vstd::utf8::{decode_utf8, encode_utf8, valid_utf8};

use base64::engine::general_purpose::STANDARD;
use base64::Engine;

use crate::described::{char_is_white_space, is_white_space, trim, trim_back, trim_front, trim_spec};

verus! {

/// The standard-alphabet base64 text (with `=` padding) of a byte sequence,
/// as `base64::engine::general_purpose::STANDARD` writes it.
pub uninterp spec fn base64_encoded(bytes: Seq<u8>) -> Seq<char>;

/// The bytes that the standard base64 engine decodes from a text, or `None`
/// where it reports an error.
pub uninterp spec fn base64_decoded(text: Seq<char>) -> Option<Seq<u8>>;

/// A character of the standard base64 alphabet or its padding.
pub open spec fn base64_char(c: char) -> bool {
    ('A' <= c && c <= 'Z') || ('a' <= c && c <= 'z') || ('0' <= c && c <= '9') || c == '+' || c
        == '/' || c == '='
}

/// `STANDARD.encode(bytes)` from the base64 crate. The contract claims
/// that the result is a function of the bytes alone, is written in the
/// standard alphabet with padding, is four characters per started group of
/// three bytes, and that the crate's decoder turns it back into the bytes.
/// The crate panics when that length overflows `usize`, which the
/// precondition rules out.
#[verifier::external_body]
fn standard_encode(bytes: &[u8]) -> (r: String)
    requires
        bytes@.len() / 3 * 4 + 4 <= usize::MAX,
    ensures
        r@ == base64_encoded(bytes@),
        forall|i: int| 0 <= i < r@.len() ==> base64_char(#[trigger] r@[i]),
        r@.len() == (bytes@.len() + 2) / 3 * 4,
        base64_decoded(r@) == Some(bytes@),
{
    STANDARD.encode(bytes)
}

/// `STANDARD.decode(text)` from the base64 crate, its error mapped to
/// `None`. The contract claims that the outcome is a function of the text
/// alone.
#[verifier::external_body]
fn standard_decode(text: &str) -> (r: Option<Vec<u8>>)
    ensures
        match r {
            Some(v) => base64_decoded(text@) == Some(v@),
            None => base64_decoded(text@) is None,
        },
{
    STANDARD.decode(text).ok()
}

/// `String::from_utf8`, its error mapped to `None`: the text the bytes
/// encode, when they are valid UTF-8.
#[verifier::external_body]
fn string_from_utf8(bytes: Vec<u8>) -> (r: Option<String>)
    ensures
        r is Some <==> valid_utf8(bytes@),
        r matches Some(s) ==> s@ == decode_utf8(bytes@),
{
    String::from_utf8(bytes).ok()
}

/// Why a shared bundle could not be decoded.
#[derive(Debug, Clone, Copy, PartialEq, Eq)]
pub enum DecodeFailure {
    /// The text is not valid standard base64.
    InvalidBase64,
    /// The decoded bytes are not UTF-8.
    InvalidUtf8,
}

/// The base64 text of a string's UTF-8 bytes.
pub fn base64_encode(input: &str) -> (r: String)
    requires
        encode_utf8(input@).len() / 3 * 4 + 4 <= usize::MAX,
    ensures
        r@ == base64_encoded(encode_utf8(input@)),
        base64_decoded(trim_spec(r@)) == Some(encode_utf8(input@)),
{
    let bytes = input.as_bytes();
    let r = standard_encode(bytes);
    proof {
        assert forall|i: int| 0 <= i < r@.len() implies !is_white_space(#[trigger] r@[i]) by {
            assert(base64_char(r@[i]));
        }
        lemma_trim_fixed(r@);
    }
    r
}

/// Decodes base64 text, surrounding white space ignored, into a string.
pub fn base64_decode(input: &str) -> (r: Result<String, DecodeFailure>)
    ensures
        match base64_decoded(trim_spec(input@)) {
            None => r == Err::<String, DecodeFailure>(DecodeFailure::InvalidBase64),
            Some(b) => if valid_utf8(b) {
                r matches Ok(s) && s@ == decode_utf8(b)
            } else {
                r == Err::<String, DecodeFailure>(DecodeFailure::InvalidUtf8)
            },
        },
{
    let trimmed = trim(input);
    match standard_decode(trimmed.as_str()) {
        None => Err(DecodeFailure::InvalidBase64),
        Some(bytes) => match string_from_utf8(bytes) {
            None => Err(DecodeFailure::InvalidUtf8),
            Some(s) => Ok(s),
        },
    }
}

/// Text with no white space at either end is its own trim.
proof fn lemma_trim_fixed(s: Seq<char>)
    requires
        forall|i: int| 0 <= i < s.len() ==> !is_white_space(#[trigger] s[i]),
    ensures
        trim_spec(s) == s,
{
    if s.len() > 0 {
        assert(!is_white_space(s[0]));
        assert(!is_white_space(s.last()));
    }
    assert(trim_front(s) == s);
}

/// What `base64_encode` writes for a string, `base64_decode` reads back as
/// that string: its decoded bytes are valid UTF-8 and spell the string.
pub proof fn law_share_roundtrip(s: Seq<char>, text: Seq<char>)
    requires
        base64_decoded(trim_spec(text)) == Some(encode_utf8(s)),
    ensures
        base64_decoded(trim_spec(text)) matches Some(b) && valid_utf8(b) && decode_utf8(b) == s,
{
    broadcast use vstd::utf8::encode_utf8_valid_utf8, vstd::utf8::encode_utf8_decode_utf8;

}

} // verus!
