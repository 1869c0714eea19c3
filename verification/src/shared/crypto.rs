//! AES-256-GCM sealing of buffers, and file checksums.
use vstd::prelude::*;
use aes_gcm::aead::{Aead, AeadCore, KeyInit};
use aes_gcm::{Aes256Gcm, Key, Nonce};
use rand::RngCore;
use crate::shared::digest::{checksum_bytes, checksum_spec};
use crate::shared::error::CoreError;
use crate::shared::types::FileRead;

verus! {

/// The nonce length of AES-256-GCM, in bytes.
pub const NONCE_LEN: usize = 12;

/// The authentication tag length of AES-256-GCM, in bytes.
pub const TAG_LEN: usize = 16;

/// The longest plaintext that AES-GCM accepts, in bytes (`aes_gcm::P_MAX`).
pub const MAX_PLAINTEXT_LEN: u64 = 0x10_0000_0000;

/// The AES-256-GCM ciphertext (with its tag) of a plaintext under a key and nonce.
pub uninterp spec fn aes256gcm_seal_spec(key: Seq<u8>, nonce: Seq<u8>, plaintext: Seq<u8>) -> Seq<u8>;

/// The AES-256-GCM plaintext of a ciphertext under a key and nonce, when it authenticates.
pub uninterp spec fn aes256gcm_open_spec(key: Seq<u8>, nonce: Seq<u8>, ciphertext: Seq<u8>) -> Option<Seq<u8>>;

/// The text of `aead::Error`, the one error of AES-GCM sealing and opening.
pub open spec fn aead_error_text() -> Seq<char> {
    seq!['a', 'e', 'a', 'd', ':', ':', 'E', 'r', 'r', 'o', 'r']
}

/// Generates a random 32-byte key (`rand::thread_rng().fill_bytes`).
///
/// The bytes are random; nothing is stated of them.
#[verifier::external_body]
pub fn generate_key() -> (key: [u8; 32]) {
    let mut key = [0u8; 32];
    rand::thread_rng().fill_bytes(&mut key);
    key
}

/// A random 12-byte nonce (`AeadCore::generate_nonce` with `thread_rng`).
///
/// The bytes are random; nothing is stated of them.
#[verifier::external_body]
fn random_nonce() -> (nonce: [u8; 12]) {
    let nonce = Aes256Gcm::generate_nonce(&mut rand::thread_rng());
    nonce.into()
}

/// `Aead::encrypt` of `Aes256Gcm` with no associated data.
///
/// The crate refuses only plaintexts longer than `P_MAX`; the ciphertext is
/// the plaintext's length plus the 16-byte tag, and opening it with the same
/// key and nonce gives the plaintext back. Its error is `aead::Error`, whose
/// text is the constant `aead::Error`.
#[verifier::external_body]
fn aes256gcm_seal(key: &[u8; 32], nonce: &[u8; 12], plaintext: &[u8]) -> (r: Result<Vec<u8>, String>)
    ensures
        r is Ok <==> plaintext@.len() <= MAX_PLAINTEXT_LEN,
        r matches Ok(c) ==> c@ == aes256gcm_seal_spec(key@, nonce@, plaintext@),
        r matches Ok(c) ==> c@.len() == plaintext@.len() + TAG_LEN,
        r matches Ok(c) ==> aes256gcm_open_spec(key@, nonce@, c@) == Some(plaintext@),
        r matches Err(m) ==> m@ == aead_error_text(),
{
    let cipher = Aes256Gcm::new(Key::<Aes256Gcm>::from_slice(key));
    cipher.encrypt(Nonce::from_slice(nonce), plaintext).map_err(|e| e.to_string())
}

/// `Aead::decrypt` of `Aes256Gcm` with no associated data.
///
/// The result is the named opening of the ciphertext. Its error is
/// `aead::Error`, whose text is the constant `aead::Error`.
#[verifier::external_body]
fn aes256gcm_open(key: &[u8; 32], nonce: &[u8], ciphertext: &[u8]) -> (r: Result<Vec<u8>, String>)
    requires
        nonce@.len() == NONCE_LEN,
    ensures
        match r {
            Ok(p) => aes256gcm_open_spec(key@, nonce@, ciphertext@) == Some(p@),
            Err(m) => aes256gcm_open_spec(key@, nonce@, ciphertext@) is None && m@ == aead_error_text(),
        },
{
    let cipher = Aes256Gcm::new(Key::<Aes256Gcm>::from_slice(key));
    cipher.decrypt(Nonce::from_slice(nonce), ciphertext).map_err(|e| e.to_string())
}

/// The plaintext of a sealed buffer (a 12-byte nonce followed by the
/// ciphertext), or `None` when it is too short or does not authenticate.
pub open spec fn decrypt_spec(key: Seq<u8>, sealed: Seq<u8>) -> Option<Seq<u8>> {
    if sealed.len() < NONCE_LEN {
        None
    } else {
        aes256gcm_open_spec(key, sealed.subrange(0, NONCE_LEN as int), sealed.subrange(NONCE_LEN as int, sealed.len() as int))
    }
}

/// Encrypts a buffer with AES-256-GCM under a fresh random nonce. The result
/// is the 12-byte nonce followed by the ciphertext; decrypting it with the
/// same key gives the buffer back.
pub fn encrypt(data: &[u8], key: &[u8; 32]) -> (r: Result<Vec<u8>, CoreError>)
    ensures
        r is Ok <==> data@.len() <= MAX_PLAINTEXT_LEN,
        r matches Err(e) ==> (e matches CoreError::Crypto(m) && m@ == aead_error_text()),
        r matches Ok(c) ==> c@.len() == NONCE_LEN + data@.len() + TAG_LEN,
        r matches Ok(c) ==> c@.subrange(NONCE_LEN as int, c@.len() as int)
            == aes256gcm_seal_spec(key@, c@.subrange(0, NONCE_LEN as int), data@),
        r matches Ok(c) ==> decrypt_spec(key@, c@) == Some(data@),
{
    let nonce = random_nonce();
    match aes256gcm_seal(key, &nonce, data) {
        Ok(ciphertext) => {
            let mut result: Vec<u8> = Vec::new();
            let mut i: usize = 0;
            while i < NONCE_LEN
                invariant
                    i <= NONCE_LEN,
                    result@ =~= nonce@.subrange(0, i as int),
                decreases NONCE_LEN - i,
            {
                result.push(nonce[i]);
                i += 1;
            }
            let mut j: usize = 0;
            while j < ciphertext.len()
                invariant
                    j <= ciphertext@.len(),
                    result@ =~= nonce@ + ciphertext@.subrange(0, j as int),
                decreases ciphertext@.len() - j,
            {
                result.push(ciphertext[j]);
                j += 1;
            }
            assert(ciphertext@.subrange(0, ciphertext@.len() as int) =~= ciphertext@);
            assert(result@.subrange(0, NONCE_LEN as int) =~= nonce@);
            assert(result@.subrange(NONCE_LEN as int, result@.len() as int) =~= ciphertext@);
            Ok(result)
        },
        Err(message) => Err(CoreError::Crypto(message)),
    }
}

/// Decrypts a buffer made by [`encrypt`]: the first 12 bytes are the nonce.
pub fn decrypt(encrypted_data: &[u8], key: &[u8; 32]) -> (r: Result<Vec<u8>, CoreError>)
    ensures
        match r {
            Ok(p) => decrypt_spec(key@, encrypted_data@) == Some(p@),
            Err(e) => decrypt_spec(key@, encrypted_data@) is None && (e matches CoreError::Crypto(m)
                && m@ == (if encrypted_data@.len() < NONCE_LEN { "Encrypted data too short"@ } else { aead_error_text() })),
        },
{
    if encrypted_data.len() < NONCE_LEN {
        return Err(CoreError::Crypto(String::from_str("Encrypted data too short")));
    }
    let nonce = slice_part(encrypted_data, 0, NONCE_LEN);
    let ciphertext = slice_part(encrypted_data, NONCE_LEN, encrypted_data.len());
    match aes256gcm_open(key, nonce.as_slice(), ciphertext.as_slice()) {
        Ok(p) => Ok(p),
        Err(message) => Err(CoreError::Crypto(message)),
    }
}

/// A copy of `data[from..to]`.
pub fn slice_part(data: &[u8], from: usize, to: usize) -> (r: Vec<u8>)
    requires
        from <= to <= data@.len(),
    ensures
        r@ == data@.subrange(from as int, to as int),
{
    let mut out: Vec<u8> = Vec::new();
    let mut i: usize = from;
    while i < to
        invariant
            from <= i <= to <= data@.len(),
            out@ =~= data@.subrange(from as int, i as int),
        decreases to - i,
    {
        out.push(data[i]);
        i += 1;
    }
    out
}

/// The checksum of a file from the outcome of reading it: the hexadecimal
/// SHA-256 digest of its content, `FileNotFound` when it does not exist,
/// `Io` when reading failed otherwise.
pub fn calculate_checksum(path: &str, read: FileRead) -> (r: Result<String, CoreError>)
    ensures
        match read {
            FileRead::Content(c) => r matches Ok(s) && s@ == checksum_spec(c@) && s@.len() == 64,
            FileRead::NotFound => r matches Err(CoreError::FileNotFound { path: p }) && p@ == path@,
            FileRead::Failed(m) => r matches Err(CoreError::Io { path: p, message }) && p@ == path@ && message == m,
        },
{
    match read {
        FileRead::Content(content) => Ok(checksum_bytes(content.as_slice())),
        FileRead::NotFound => Err(CoreError::FileNotFound { path: path.to_owned() }),
        FileRead::Failed(message) => Err(CoreError::Io { path: path.to_owned(), message }),
    }
}

} // verus!
