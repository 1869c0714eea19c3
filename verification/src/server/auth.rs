//! Authentication of requests by `Authorization: Bearer <api key>`.
use vstd::prelude::*;
use crate::server::error::{AppError, AppResult};
use crate::server::security::{verify_api_key, verify_outcome_spec};
use crate::text::{is_white, push_char, strip_prefix, strip_prefix_spec, trim_chars, trim_spec, trim_start_spec, trim_end_spec, TrimSet};
use vstd::utf8::{encode_utf8, is_ascii_chars, is_ascii_chars_encode_utf8};

verus! {

/// The client on whose behalf a request is made.
#[derive(Debug, Clone, PartialEq, Eq)]
pub struct AuthenticatedClient {
    pub id: u128,
    pub name: String,
}

/// What storage holds to authenticate a client.
#[derive(Debug, Clone, PartialEq, Eq)]
pub struct ClientAuthRow {
    pub id: u128,
    pub name: String,
    pub api_key_hash: String,
}

/// A header byte that `HeaderValue::to_str` accepts: visible ASCII or tab.
pub open spec fn is_visible_ascii(b: u8) -> bool {
    (32 <= b && b < 127) || b == 9
}

pub open spec fn bytes_as_chars(bytes: Seq<u8>) -> Seq<char> {
    bytes.map_values(|b: u8| b as char)
}

pub open spec fn bearer_prefix() -> Seq<char> {
    seq!['B', 'e', 'a', 'r', 'e', 'r', ' ']
}

pub open spec fn header_view(header: Option<&[u8]>) -> Option<Seq<u8>> {
    match header {
        Some(h) => Some(h@),
        None => None,
    }
}

/// The API key carried by an `Authorization` header, or the message of the
/// reason it is refused.
pub open spec fn bearer_outcome_spec(header: Option<Seq<u8>>) -> Result<Seq<char>, Seq<char>> {
    match header {
        None => Err("Missing Authorization header"@),
        Some(bytes) => {
            if exists|i: int| 0 <= i < bytes.len() && !is_visible_ascii(#[trigger] bytes[i]) {
                Err("Authorization header is not valid ASCII"@)
            } else {
                match strip_prefix_spec(bytes_as_chars(bytes), bearer_prefix()) {
                    None => Err("Authorization header must use the Bearer scheme"@),
                    Some(rest) => {
                        let token = trim_spec(TrimSet::White, rest);
                        if token.len() == 0 {
                            Err("Bearer token cannot be empty"@)
                        } else {
                            Ok(token)
                        }
                    },
                }
            }
        },
    }
}

/// Extracts the API key of an `Authorization: Bearer <key>` header. A
/// missing header, bytes other than visible ASCII, another scheme, or a
/// blank key leave the request unauthorised.
pub fn bearer_token(header: Option<&[u8]>) -> (r: AppResult<String>)
    ensures
        match bearer_outcome_spec(header_view(header)) {
            Ok(t) => r matches Ok(s) && s@ == t,
            Err(m) => r matches Err(AppError::Unauthorized(msg)) && msg@ == m,
        },
{
    let bytes = match header {
        None => {
            return Err(AppError::Unauthorized(String::from_str("Missing Authorization header")));
        },
        Some(b) => b,
    };
    let mut text = String::new();
    let mut i: usize = 0;
    while i < bytes.len()
        invariant
            i <= bytes@.len(),
            header_view(header) == Some(bytes@),
            forall|k: int| 0 <= k < i ==> is_visible_ascii(#[trigger] bytes@[k]),
            text@ =~= bytes_as_chars(bytes@.subrange(0, i as int)),
        decreases bytes@.len() - i,
    {
        let b = bytes[i];
        if !((32 <= b && b < 127) || b == 9) {
            return Err(AppError::Unauthorized(String::from_str("Authorization header is not valid ASCII")));
        }
        push_char(&mut text, b as char);
        i += 1;
    }
    assert(bytes@.subrange(0, bytes@.len() as int) =~= bytes@);
    let rest = match strip_prefix(text.as_str(), "Bearer ") {
        None => {
            proof { reveal_strlit("Bearer "); assert("Bearer "@ =~= bearer_prefix()); }
            return Err(AppError::Unauthorized(String::from_str("Authorization header must use the Bearer scheme")));
        },
        Some(rest) => rest,
    };
    proof { reveal_strlit("Bearer "); assert("Bearer "@ =~= bearer_prefix()); }
    let token = trim_chars(rest.as_str(), TrimSet::White);
    if token.as_str().unicode_len() == 0 {
        return Err(AppError::Unauthorized(String::from_str("Bearer token cannot be empty")));
    }
    Ok(token)
}

/// The client that a key authenticates against a stored row, or the error:
/// `Err(None)` for an internal failure, `Err(Some(m))` for refusal with `m`.
pub open spec fn authenticate_spec(api_key: Seq<char>, row: Option<ClientAuthRow>) -> Result<(u128, Seq<char>), Option<Seq<char>>> {
    match row {
        None => Err(Some("Invalid API key"@)),
        Some(row) => match verify_outcome_spec(api_key, row.api_key_hash@) {
            None => Err(None),
            Some(false) => Err(Some("Invalid API key"@)),
            Some(true) => Ok((row.id, row.name@)),
        },
    }
}

/// Authenticates an API key against the row found by its fingerprint: no
/// row, or a key that does not verify against the stored hash, is refused.
pub fn authenticate(api_key: &str, row: Option<ClientAuthRow>) -> (r: AppResult<AuthenticatedClient>)
    ensures
        match authenticate_spec(api_key@, row) {
            Ok((id, name)) => r matches Ok(c) && c.id == id && c.name@ == name,
            Err(Some(m)) => r matches Err(AppError::Unauthorized(msg)) && msg@ == m,
            Err(None) => r matches Err(AppError::Internal(m)) && "Password hashing failed: "@.is_prefix_of(m@),
        },
{
    let row = match row {
        None => {
            return Err(AppError::Unauthorized(String::from_str("Invalid API key")));
        },
        Some(row) => row,
    };
    let verified = verify_api_key(api_key, row.api_key_hash.as_str());
    match verified {
        Err(e) => Err(e),
        Ok(false) => Err(AppError::Unauthorized(String::from_str("Invalid API key"))),
        Ok(true) => Ok(AuthenticatedClient { id: row.id, name: row.name }),
    }
}

/// The bytes of `Authorization: Bearer <key>` as a client sends them.
pub open spec fn bearer_header_bytes(api_key: Seq<char>) -> Seq<u8> {
    encode_utf8(bearer_prefix() + api_key)
}

/// Law: a key made of visible, non-blank ASCII characters that a client
/// sends as `Bearer <key>` is read back exactly.
pub proof fn lemma_bearer_roundtrip(api_key: Seq<char>)
    requires
        api_key.len() > 0,
        forall|i: int| 0 <= i < api_key.len() ==> ('!' <= #[trigger] api_key[i] && api_key[i] <= '~'),
    ensures
        bearer_outcome_spec(Some(bearer_header_bytes(api_key))) == Ok::<Seq<char>, Seq<char>>(api_key),
{
    let text = bearer_prefix() + api_key;
    assert(is_ascii_chars(text)) by {
        assert forall|i: int| 0 <= i < text.len() implies '\0' <= #[trigger] text[i] <= '\u{7f}' by {
            if i >= 7 {
                assert(text[i] == api_key[i - 7]);
            }
        }
    }
    is_ascii_chars_encode_utf8(text);
    let bytes = encode_utf8(text);
    assert forall|i: int| 0 <= i < bytes.len() implies is_visible_ascii(#[trigger] bytes[i]) by {
        assert(text[i] as u8 == bytes[i]);
        if i >= 7 {
            assert(text[i] == api_key[i - 7]);
        }
    }
    assert(bytes_as_chars(bytes) =~= text) by {
        assert forall|i: int| 0 <= i < text.len() implies #[trigger] bytes_as_chars(bytes)[i] == text[i] by {
            assert(text[i] as u8 == bytes[i]);
            if i >= 7 {
                assert(text[i] == api_key[i - 7]);
            }
        }
    }
    assert(bearer_prefix().is_prefix_of(text)) by {
        assert(text.subrange(0, 7) =~= bearer_prefix());
    }
    assert(text.subrange(7, text.len() as int) =~= api_key);
    assert(!is_white(api_key[0]));
    assert(!is_white(api_key.last()));
    assert(trim_start_spec(TrimSet::White, api_key) == api_key);
    assert(trim_end_spec(TrimSet::White, api_key) == api_key);
}

} // verus!
