use rustsync::shared::crypto::{calculate_checksum, decrypt, encrypt, generate_key};
use rustsync::shared::digest::{checksum_bytes, hex_encode, sha256};
use rustsync::shared::error::CoreError;
use rustsync::shared::types::{uuid_text, Client, FileMetadata, FileRead};

#[test]
fn test_file_metadata_creation() {
    let path = "test.txt".to_string();
    let size = 100;
    let checksum = "hash".to_string();
    let metadata = FileMetadata::new(path.clone(), size, checksum.clone());

    assert_eq!(metadata.path, path);
    assert_eq!(metadata.size, size);
    assert_eq!(metadata.checksum, checksum);
    assert_eq!(metadata.version, 1);
}

#[test]
fn test_file_metadata_update() {
    let mut metadata = FileMetadata::new("test.txt".to_string(), 100, "hash1".to_string());
    let old_time = metadata.last_modified;
    let old_version = metadata.version;

    metadata.update(200, "hash2".to_string());

    assert_eq!(metadata.size, 200);
    assert_eq!(metadata.checksum, "hash2");
    assert_eq!(metadata.version, old_version + 1);
    assert!(metadata.last_modified >= old_time);
}

#[test]
fn test_file_metadata_update_saturates_version() {
    let mut metadata = FileMetadata::new("test.txt".to_string(), 100, "hash1".to_string());
    metadata.version = u64::MAX;

    metadata.update(200, "hash2".to_string());

    assert_eq!(metadata.version, u64::MAX);
}

#[test]
fn test_client_creation() {
    let name = "Alice".to_string();
    let public_key = vec![1, 2, 3];
    let client = Client::new(name.clone(), public_key.clone());

    assert_eq!(client.name, name);
    assert_eq!(client.public_key, public_key);
}

#[test]
fn test_encrypt_decrypt_roundtrip() {
    let key = generate_key();
    let data = b"Secret message";

    let encrypted = encrypt(data, &key).expect("Encryption failed");
    let decrypted = decrypt(&encrypted, &key).expect("Decryption failed");

    assert_eq!(data, &decrypted[..]);
}

#[test]
fn encrypted_buffer_is_nonce_then_ciphertext_and_tag() {
    let key = generate_key();
    let data = b"abc";
    let encrypted = encrypt(data, &key).unwrap();
    assert_eq!(encrypted.len(), 12 + 3 + 16);
}

#[test]
fn decrypt_rejects_short_buffer() {
    let key = generate_key();
    let err = decrypt(&[1, 2, 3], &key).unwrap_err();
    assert_eq!(err, CoreError::Crypto("Encrypted data too short".to_string()));
}

#[test]
fn decrypt_rejects_other_key() {
    let key = generate_key();
    let mut other = key;
    other[0] ^= 1;
    let encrypted = encrypt(b"payload", &key).unwrap();
    assert_eq!(decrypt(&encrypted, &other), Err(CoreError::Crypto("aead::Error".to_string())));
}

#[test]
fn test_checksum_deterministic() {
    let content = b"Hello RustSync\n".to_vec();
    let checksum1 = calculate_checksum("notes.txt", FileRead::Content(content.clone())).unwrap();
    let checksum2 = calculate_checksum("notes.txt", FileRead::Content(content)).unwrap();

    assert_eq!(checksum1, checksum2);
    assert_eq!(checksum1.len(), 64);
}

#[test]
fn test_checksum_missing_file_returns_not_found() {
    let err = calculate_checksum("missing.txt", FileRead::NotFound).unwrap_err();
    assert!(matches!(err, CoreError::FileNotFound { .. }));
}

#[test]
fn checksum_read_failure_is_io_error() {
    let err = calculate_checksum("f.txt", FileRead::Failed("denied".to_string())).unwrap_err();
    assert_eq!(err, CoreError::Io { path: "f.txt".to_string(), message: "denied".to_string() });
}

#[test]
fn checksum_of_known_content() {
    assert_eq!(
        checksum_bytes(b"abc"),
        "ba7816bf8f01cfea414140de5dae2223b00361a396177a9cb410ff61f20015ad"
    );
    assert_eq!(sha256(b"").len(), 32);
}

#[test]
fn hex_encoding_is_lower_case() {
    assert_eq!(hex_encode(&[0x00, 0x0f, 0xab, 0xff]), "000fabff");
}

#[test]
fn uuid_text_is_hyphenated() {
    assert_eq!(
        uuid_text(0x67e5_5044_10b1_426f_9247_bb68_0e5f_e0c8),
        "67e55044-10b1-426f-9247-bb680e5fe0c8"
    );
}

#[test]
fn fresh_ids_are_version_four() {
    let metadata = FileMetadata::new("a".to_string(), 1, "c".to_string());
    assert_eq!((metadata.id >> 76) & 0xf, 4);
    assert_eq!((metadata.id >> 62) & 0x3, 2);
}
