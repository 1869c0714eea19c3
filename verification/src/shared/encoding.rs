//! Base64 text of bytes, in the two alphabets that client and server use.
use vstd::prelude::*;
use base64::Engine;
use base64::engine::general_purpose::{STANDARD, URL_SAFE_NO_PAD};

verus! {

/// The URL-safe, unpadded base64 text of bytes.
pub uninterp spec fn b64_url_nopad_encode_spec(bytes: Seq<u8>) -> Seq<char>;

/// The bytes of URL-safe, unpadded base64 text, when it is valid.
pub uninterp spec fn b64_url_nopad_decode_spec(text: Seq<char>) -> Option<Seq<u8>>;

/// The standard, padded base64 text of bytes.
pub uninterp spec fn b64_standard_encode_spec(bytes: Seq<u8>) -> Seq<char>;

/// The bytes of standard, padded base64 text, when it is valid.
pub uninterp spec fn b64_standard_decode_spec(text: Seq<char>) -> Option<Seq<u8>>;

/// A character of the URL-safe base64 alphabet.
pub open spec fn is_url_safe_b64_char(c: char) -> bool {
    ('A' <= c && c <= 'Z') || ('a' <= c && c <= 'z') || ('0' <= c && c <= '9') || c == '-' || c == '_'
}

/// `URL_SAFE_NO_PAD.encode`: the text is made of the URL-safe alphabet, has
/// the unpadded length `ceil(4n/3)`, and decodes back to the bytes.
#[verifier::external_body]
pub fn b64_url_nopad_encode(bytes: &[u8]) -> (r: String)
    ensures
        r@ == b64_url_nopad_encode_spec(bytes@),
        r@.len() == (4 * bytes@.len() + 2) / 3,
        forall|i: int| 0 <= i < r@.len() ==> is_url_safe_b64_char(#[trigger] r@[i]),
        b64_url_nopad_decode_spec(r@) == Some(bytes@),
{
    URL_SAFE_NO_PAD.encode(bytes)
}

/// `URL_SAFE_NO_PAD.decode`: the named decoding of the text.
#[verifier::external_body]
pub fn b64_url_nopad_decode(text: &str) -> (r: Option<Vec<u8>>)
    ensures
        match r {
            Some(v) => b64_url_nopad_decode_spec(text@) == Some(v@),
            None => b64_url_nopad_decode_spec(text@) is None,
        },
{
    URL_SAFE_NO_PAD.decode(text).ok()
}

/// `STANDARD.encode`: the named encoding, which decodes back to the bytes.
#[verifier::external_body]
pub fn b64_standard_encode(bytes: &[u8]) -> (r: String)
    ensures
        r@ == b64_standard_encode_spec(bytes@),
        b64_standard_decode_spec(r@) == Some(bytes@),
{
    STANDARD.encode(bytes)
}

/// `STANDARD.decode`: the named decoding of the text.
#[verifier::external_body]
pub fn b64_standard_decode(text: &str) -> (r: Option<Vec<u8>>)
    ensures
        match r {
            Some(v) => b64_standard_decode_spec(text@) == Some(v@),
            None => b64_standard_decode_spec(text@) is None,
        },
{
    STANDARD.decode(text).ok()
}

} // verus!
