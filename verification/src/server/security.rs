//! API keys: their generation, the fingerprint used to look a client up,
//! the Argon2 hash kept in storage, and base64 request fields.
use vstd::prelude::*;
use argon2::Argon2;
use argon2::password_hash::rand_core::OsRng;
use argon2::password_hash::{PasswordHash, PasswordHasher, PasswordVerifier, SaltString};
use crate::server::error::{AppError, AppResult};
use crate::shared::crypto::generate_key;
use crate::shared::digest::{hex_encode, hex_lower, sha256, sha256_spec};
use crate::shared::encoding::{
    b64_standard_decode, b64_standard_decode_spec, b64_url_nopad_decode, b64_url_nopad_decode_spec,
    b64_url_nopad_encode, b64_url_nopad_encode_spec, is_url_safe_b64_char,
};
use crate::text::concat_str;
use vstd::utf8::encode_utf8;

verus! {

/// Whether text is a password hash in PHC string format (`PasswordHash::new` accepts it).
pub uninterp spec fn phc_parses_spec(hash: Seq<char>) -> bool;

/// Whether Argon2 verification of a password against a PHC hash succeeds.
pub uninterp spec fn argon2_verifies_spec(password: Seq<char>, hash: Seq<char>) -> bool;

/// The prefix of every API key.
pub open spec fn api_key_prefix() -> Seq<char> {
    seq!['r', 's', 'k', '_']
}

/// The shape of a generated API key: `rsk_` followed by the URL-safe,
/// unpadded base64 text of 32 bytes.
pub open spec fn is_api_key(key: Seq<char>) -> bool {
    &&& key.len() == 47
    &&& key.subrange(0, 4) == api_key_prefix()
    &&& forall|i: int| 0 <= i < key.len() ==> is_url_safe_b64_char(#[trigger] key[i])
    &&& exists|b: Seq<u8>| b.len() == 32 && key.subrange(4, 47) == #[trigger] b64_url_nopad_encode_spec(b)
}

/// A character of a PHC hash string that Argon2 with default parameters
/// writes: ASCII letters and digits, `$`, `=`, `,`, `+`, `/` and `-`.
pub open spec fn is_phc_char(c: char) -> bool {
    ||| ('A' <= c && c <= 'Z')
    ||| ('a' <= c && c <= 'z')
    ||| ('0' <= c && c <= '9')
    ||| c == '$' || c == '=' || c == ',' || c == '+' || c == '/' || c == '-'
}

/// Whether `needle` occurs in `hay` as a contiguous piece.
pub open spec fn contains_seq(hay: Seq<char>, needle: Seq<char>) -> bool {
    exists|i: int| 0 <= i && i + needle.len() <= hay.len() && #[trigger] hay.subrange(i, i + needle.len()) == needle
}

/// Law: an API key never occurs inside text written only with PHC hash
/// characters, since every key holds the `_` of its `rsk_` prefix.
pub proof fn lemma_phc_text_never_holds_api_key(hash: Seq<char>, api_key: Seq<char>)
    requires
        is_api_key(api_key),
        forall|i: int| 0 <= i < hash.len() ==> is_phc_char(#[trigger] hash[i]),
    ensures
        !contains_seq(hash, api_key),
        hash != api_key,
{
    assert(api_key.subrange(0, 4)[3] == '_');
    assert(api_key[3] == '_');
    if contains_seq(hash, api_key) {
        let i = choose|i: int| 0 <= i && i + api_key.len() <= hash.len() && #[trigger] hash.subrange(i, i + api_key.len()) == api_key;
        assert(hash.subrange(i, i + api_key.len())[3] == hash[i + 3]);
        assert(!is_phc_char(hash[i + 3]));
    }
    if hash == api_key {
        assert(!is_phc_char(hash[3]));
    }
}

/// The fingerprint of an API key: the hexadecimal SHA-256 digest of its UTF-8 bytes.
pub open spec fn fingerprint_spec(api_key: Seq<char>) -> Seq<char> {
    hex_lower(sha256_spec(encode_utf8(api_key)))
}

/// A new random API key: `rsk_` followed by 32 random bytes in URL-safe,
/// unpadded base64.
pub fn generate_api_key() -> (r: String)
    ensures
        is_api_key(r@),
{
    let bytes = generate_key();
    let encoded = b64_url_nopad_encode(&bytes);
    assert(encoded@.len() == 43);
    let key = concat_str("rsk_", encoded.as_str());
    proof {
        reveal_strlit("rsk_");
        assert("rsk_"@ =~= api_key_prefix());
        assert(key@.subrange(0, 4) =~= api_key_prefix());
        assert(key@.subrange(4, 47) =~= encoded@);
        assert forall|i: int| 0 <= i < key@.len() implies is_url_safe_b64_char(#[trigger] key@[i]) by {
            if i >= 4 {
                assert(key@[i] == encoded@[i - 4]);
            }
        }
    }
    key
}

/// The fingerprint by which a client is found from its API key: the
/// SHA-256 digest of the key, as 64 lower-case hexadecimal digits.
pub fn fingerprint_api_key(api_key: &str) -> (r: String)
    ensures
        r@ == fingerprint_spec(api_key@),
        r@.len() == 64,
{
    let digest = sha256(api_key.as_bytes());
    hex_encode(digest.as_slice())
}

/// `Argon2::default().hash_password` with a fresh random salt
/// (`SaltString::generate`), rendered as a PHC string.
///
/// With the default parameters and a generated 16-byte salt, hashing fails
/// only for a password longer than `MAX_PWD_LEN` (0xFFFF_FFFF) bytes. The
/// salt is random, so the text is not named; what holds of every outcome is
/// stated: it parses as a PHC string, Argon2 verification of the same
/// password against it succeeds, it starts with `$`, and it is written with
/// `$`, the `argon2id` identifier, `v=19`, the decimal parameters joined by
/// `=` and `,`, and unpadded standard base64 for salt and hash. The error's
/// text is not stated.
#[verifier::external_body]
fn argon2_hash(password: &str) -> (r: Result<String, String>)
    ensures
        encode_utf8(password@).len() <= 0xFFFF_FFFF ==> r is Ok,
        r matches Ok(h) ==> (forall|i: int| 0 <= i < h@.len() ==> is_phc_char(#[trigger] h@[i])),
        r matches Ok(h) ==> phc_parses_spec(h@),
        r matches Ok(h) ==> argon2_verifies_spec(password@, h@),
        r matches Ok(h) ==> h@.len() > 0 && h@[0] == '$',
{
    let salt = SaltString::generate(&mut OsRng);
    Argon2::default()
        .hash_password(password.as_bytes(), &salt)
        .map(|hash| hash.to_string())
        .map_err(|error| error.to_string())
}

/// `PasswordHash::new`: whether the text parses as a PHC string. The
/// error's text is not stated.
#[verifier::external_body]
fn phc_parse(hash: &str) -> (r: Result<(), String>)
    ensures
        r is Ok <==> phc_parses_spec(hash@),
{
    PasswordHash::new(hash).map(|_| ()).map_err(|error| error.to_string())
}

/// `Argon2::default().verify_password` against a parsed PHC string:
/// whether it succeeds.
#[verifier::external_body]
fn argon2_verify(password: &str, hash: &str) -> (r: bool)
    requires
        phc_parses_spec(hash@),
    ensures
        r == argon2_verifies_spec(password@, hash@),
{
    match PasswordHash::new(hash) {
        Ok(parsed) => Argon2::default().verify_password(password.as_bytes(), &parsed).is_ok(),
        Err(_) => false,
    }
}

/// Hashes an API key for storage with Argon2 and a random salt. It
/// succeeds on every key of at most 0xFFFF_FFFF UTF-8 bytes.
pub fn hash_api_key(api_key: &str) -> (r: AppResult<String>)
    ensures
        encode_utf8(api_key@).len() <= 0xFFFF_FFFF ==> r is Ok,
        match r {
            Ok(h) => phc_parses_spec(h@) && argon2_verifies_spec(api_key@, h@) && h@.len() > 0 && h@[0] == '$'
                && (forall|i: int| 0 <= i < h@.len() ==> is_phc_char(#[trigger] h@[i])),
            Err(e) => e matches AppError::Internal(m) && "Password hashing failed: "@.is_prefix_of(m@),
        },
{
    match argon2_hash(api_key) {
        Ok(hash) => Ok(hash),
        Err(detail) => {
            let e = AppError::password_hashing(detail.as_str());
            Err(e)
        },
    }
}

/// The outcome of checking an API key against a stored hash: `None` when
/// the hash does not parse, else whether the key verifies.
pub open spec fn verify_outcome_spec(api_key: Seq<char>, hash: Seq<char>) -> Option<bool> {
    if phc_parses_spec(hash) {
        Some(argon2_verifies_spec(api_key, hash))
    } else {
        None
    }
}

/// Checks an API key against a stored Argon2 hash. A hash that does not
/// parse is an internal error.
pub fn verify_api_key(api_key: &str, password_hash: &str) -> (r: AppResult<bool>)
    ensures
        match verify_outcome_spec(api_key@, password_hash@) {
            Some(b) => r == Ok::<bool, AppError>(b),
            None => r matches Err(AppError::Internal(m)) && "Password hashing failed: "@.is_prefix_of(m@),
        },
{
    match phc_parse(password_hash) {
        Ok(()) => Ok(argon2_verify(api_key, password_hash)),
        Err(detail) => {
            let e = AppError::password_hashing(detail.as_str());
            Err(e)
        },
    }
}

/// The bytes of a base64 request field: URL-safe unpadded text first, then
/// standard padded text.
pub open spec fn decode_field_spec(input: Seq<char>) -> Option<Seq<u8>> {
    match b64_url_nopad_decode_spec(input) {
        Some(b) => Some(b),
        None => b64_standard_decode_spec(input),
    }
}

/// Decodes a base64 request field, accepting URL-safe unpadded text or
/// standard padded text; anything else is a bad request naming the field.
pub fn decode_base64_field(input: &str, field_name: &str) -> (r: AppResult<Vec<u8>>)
    ensures
        match decode_field_spec(input@) {
            Some(b) => r matches Ok(v) && v@ == b,
            None => r matches Err(AppError::BadRequest(m)) && m@ == field_name@ + " must be valid base64"@,
        },
{
    match b64_url_nopad_decode(input) {
        Some(bytes) => Ok(bytes),
        None => match b64_standard_decode(input) {
            Some(bytes) => Ok(bytes),
            None => Err(AppError::BadRequest(concat_str(field_name, " must be valid base64"))),
        },
    }
}

} // verus!
