use rustsync::server::auth::{authenticate, bearer_token, AuthenticatedClient, ClientAuthRow};
use rustsync::server::error::AppError;
use rustsync::server::handlers::{
    as_u64, delete_log_record, effective_log_limit, health, plan_file_write, prepare_registration, prepare_upload,
    registration_response, require_file, rows_to_file_list, stored_content, upload_log_record, ExistingFileRow,
    FileLogDetails, RegisterClientRequest, StoredFilePathRow, StoredFileRow, UploadFileRequest,
};
use rustsync::server::security::{decode_base64_field, fingerprint_api_key, generate_api_key, hash_api_key, verify_api_key};
use rustsync::server::storage::{file_storage_path, validate_relative_file_path};
use rustsync::shared::types::{FileRead, Timestamp};

#[test]
fn api_keys_have_the_documented_shape() {
    let key = generate_api_key();
    assert!(key.starts_with("rsk_"));
    assert_eq!(key.len(), 47);
    assert_ne!(generate_api_key(), key);
}

#[test]
fn fingerprint_is_sha256_hex() {
    assert_eq!(fingerprint_api_key("abc"), "ba7816bf8f01cfea414140de5dae2223b00361a396177a9cb410ff61f20015ad");
}

#[test]
fn hashed_key_verifies_and_differs() {
    let key = generate_api_key();
    let hash = hash_api_key(&key).unwrap();
    assert_ne!(hash, key);
    assert!(!hash.contains(&key));
    assert!(hash.starts_with('$'));
    assert_eq!(verify_api_key(&key, &hash), Ok(true));
    assert_eq!(verify_api_key("rsk_other", &hash), Ok(false));
    assert!(matches!(verify_api_key(&key, "not a hash"), Err(AppError::Internal(m)) if m.starts_with("Password hashing failed: ")));
}

#[test]
fn base64_fields() {
    assert_eq!(decode_base64_field("aGVsbG8", "f").unwrap(), b"hello".to_vec());
    assert_eq!(decode_base64_field("aGVsbG8=", "f").unwrap(), b"hello".to_vec());
    assert_eq!(decode_base64_field("??", "public_key"), Err(AppError::BadRequest("public_key must be valid base64".to_string())));
}

#[test]
fn paths_are_validated() {
    assert_eq!(validate_relative_file_path("notes/todo.md"), Ok(()));
    assert_eq!(validate_relative_file_path("./notes/todo.md"), Ok(()));
    assert_eq!(
        validate_relative_file_path("../escape.txt"),
        Err(AppError::BadRequest("File path contains invalid traversal segments".to_string()))
    );
    assert_eq!(validate_relative_file_path("a/../../b"), Err(AppError::BadRequest("File path contains invalid traversal segments".to_string())));
    assert_eq!(validate_relative_file_path("/etc/passwd"), Err(AppError::BadRequest("File path must be relative".to_string())));
    assert_eq!(validate_relative_file_path("  "), Err(AppError::BadRequest("File path cannot be empty".to_string())));
    assert_eq!(validate_relative_file_path("a/..b/c"), Ok(()));
}

#[test]
fn storage_path_joins_directory_and_id() {
    let id = 0x67e5_5044_10b1_426f_9247_bb68_0e5f_e0c8;
    assert_eq!(file_storage_path("./data", id), "./data/67e55044-10b1-426f-9247-bb680e5fe0c8.bin");
    assert_eq!(file_storage_path("./data/", id), "./data/67e55044-10b1-426f-9247-bb680e5fe0c8.bin");
    assert_eq!(file_storage_path("", id), "67e55044-10b1-426f-9247-bb680e5fe0c8.bin");
}

#[test]
fn bearer_header_parsing() {
    assert_eq!(bearer_token(Some(b"Bearer rsk_abc ")), Ok("rsk_abc".to_string()));
    assert_eq!(bearer_token(None), Err(AppError::Unauthorized("Missing Authorization header".to_string())));
    assert_eq!(
        bearer_token(Some(b"Basic abc")),
        Err(AppError::Unauthorized("Authorization header must use the Bearer scheme".to_string()))
    );
    assert_eq!(bearer_token(Some(b"Bearer   ")), Err(AppError::Unauthorized("Bearer token cannot be empty".to_string())));
    assert_eq!(
        bearer_token(Some(&[b'B', 0xC3, 0xA9])),
        Err(AppError::Unauthorized("Authorization header is not valid ASCII".to_string()))
    );
}

#[test]
fn registration_then_authentication() {
    let request = RegisterClientRequest { name: "  Test Client ".to_string(), public_key: "cHVibGljLWtleS1ieXRlcw".to_string() };
    let record = prepare_registration(&request).unwrap();
    assert_eq!(record.name, "Test Client");
    assert_eq!(record.public_key, b"public-key-bytes".to_vec());
    assert_eq!(record.api_key_fingerprint, fingerprint_api_key(&record.api_key));
    assert_ne!(record.api_key_hash, record.api_key);
    assert!(!record.api_key_hash.contains(&record.api_key));
    assert!(record
        .api_key_hash
        .chars()
        .all(|c| c.is_ascii_alphanumeric() || "$=,+/-".contains(c)));
    let response = registration_response(&record);
    assert_eq!(response.api_key, record.api_key);

    let header = format!("Bearer {}", record.api_key);
    let token = bearer_token(Some(header.as_bytes())).unwrap();
    assert_eq!(token, record.api_key);
    let row = ClientAuthRow { id: record.client_id, name: record.name.clone(), api_key_hash: record.api_key_hash.clone() };
    let client = authenticate(&token, Some(row.clone())).unwrap();
    assert_eq!(client.id, record.client_id);
    assert_eq!(client.name, "Test Client");
    assert_eq!(authenticate("rsk_wrong", Some(row)), Err(AppError::Unauthorized("Invalid API key".to_string())));
    assert_eq!(authenticate(&token, None), Err(AppError::Unauthorized("Invalid API key".to_string())));
}

#[test]
fn registration_rejections() {
    let blank = RegisterClientRequest { name: " ".to_string(), public_key: "AA".to_string() };
    assert_eq!(prepare_registration(&blank).unwrap_err(), AppError::BadRequest("Client name cannot be empty".to_string()));
    let bad = RegisterClientRequest { name: "a".to_string(), public_key: "!!".to_string() };
    assert_eq!(prepare_registration(&bad).unwrap_err(), AppError::BadRequest("public_key must be valid base64".to_string()));
    let empty = RegisterClientRequest { name: "a".to_string(), public_key: "".to_string() };
    assert_eq!(prepare_registration(&empty).unwrap_err(), AppError::BadRequest("public_key cannot be empty".to_string()));
}

#[test]
fn uploads_are_checked_and_versioned() {
    let upload = prepare_upload(UploadFileRequest { path: "notes/todo.md".to_string(), content_base64: "aGVsbG8gcnVzdHN5bmM=".to_string() }).unwrap();
    assert_eq!(upload.content, b"hello rustsync".to_vec());
    assert_eq!(upload.size, 14);
    assert_eq!(upload.checksum.len(), 64);
    let err = prepare_upload(UploadFileRequest { path: "../escape.txt".to_string(), content_base64: "aGVsbG8=".to_string() }).unwrap_err();
    assert_eq!(err, AppError::BadRequest("File path contains invalid traversal segments".to_string()));

    let first = plan_file_write(None, 14).unwrap();
    assert_eq!(first.version, 1);
    assert!(first.created);
    let next = plan_file_write(Some(ExistingFileRow { id: first.file_id, version: 1 }), 20).unwrap();
    assert_eq!(next.version, 2);
    assert_eq!(next.file_id, first.file_id);
    assert!(!next.created);
    assert_eq!(
        plan_file_write(Some(ExistingFileRow { id: 1, version: i64::MAX }), 1),
        Err(AppError::Internal("File version overflow".to_string()))
    );
    assert_eq!(plan_file_write(None, u64::MAX), Err(AppError::Internal("File size cannot fit database integer type".to_string())));
}

#[test]
fn stored_rows_become_metadata() {
    let row = StoredFileRow { id: 5, path: "p".to_string(), size: 3, checksum: "c".to_string(), last_modified: Timestamp { secs: 9, nanos: 123_456_789 }, version: 2 };
    let list = rows_to_file_list(vec![row.clone()]).unwrap();
    assert_eq!(list[0].size, 3);
    assert_eq!(list[0].version, 2);
    assert_eq!(list[0].last_modified, Timestamp { secs: 9, nanos: 123_456_789 });
    let bad = StoredFileRow { size: -1, ..row.clone() };
    assert_eq!(
        rows_to_file_list(vec![row, bad]),
        Err(AppError::Internal("Database value for size cannot be represented as unsigned integer".to_string()))
    );
    assert_eq!(as_u64(-3, "version"), Err(AppError::Internal("Database value for version cannot be represented as unsigned integer".to_string())));
}

#[test]
fn log_limits() {
    assert_eq!(effective_log_limit(Some(10), 20), 10);
    assert_eq!(effective_log_limit(Some(0), 20), 1);
    assert_eq!(effective_log_limit(Some(500), 20), 20);
    assert_eq!(effective_log_limit(None, 20), 20);
    assert_eq!(effective_log_limit(None, 200), 50);
}

#[test]
fn error_responses() {
    let r = AppError::Database("disk".to_string()).response_parts();
    assert_eq!((r.status, r.error.as_str(), r.message.as_str()), (500, "internal_error", "A database error occurred"));
    let r = AppError::Unauthorized("no".to_string()).response_parts();
    assert_eq!((r.status, r.error.as_str(), r.message.as_str()), (401, "unauthorized", "no"));
    let r = AppError::NotFound("File not found".to_string()).response_parts();
    assert_eq!(r.status, 404);
    let r = AppError::Io("x".to_string()).response_parts();
    assert_eq!(r.message, "A file system error occurred");
    assert_eq!(health().status, "ok");
    assert_eq!(require_file(None), Err(AppError::NotFound("File not found".to_string())));
    assert_eq!(stored_content(FileRead::NotFound), Err(AppError::NotFound("File content not found".to_string())));
    assert_eq!(stored_content(FileRead::Failed("e".to_string())), Err(AppError::Io("e".to_string())));
}

#[test]
fn file_actions_are_logged() {
    let client = AuthenticatedClient { id: 7, name: "Alice".to_string() };
    let upload = prepare_upload(UploadFileRequest { path: "notes/log.md".to_string(), content_base64: "bG9nIGVudHJ5".to_string() }).unwrap();
    let write = plan_file_write(Some(ExistingFileRow { id: 42, version: 3 }), upload.size).unwrap();
    let record = upload_log_record(&client, &write, &upload);
    assert_eq!(record.file_id, Some(42));
    assert_eq!(record.client_id, 7);
    assert_eq!(record.action, "upload");
    assert_eq!(
        record.details,
        FileLogDetails::Upload {
            path: "notes/log.md".to_string(),
            client_name: "Alice".to_string(),
            version: 4,
            checksum: upload.checksum.clone(),
        }
    );

    let deleted = delete_log_record(&client, &StoredFilePathRow { id: 42, path: "notes/log.md".to_string() });
    assert_eq!(deleted.file_id, None);
    assert_eq!(deleted.client_id, 7);
    assert_eq!(deleted.action, "delete");
    assert_eq!(
        deleted.details,
        FileLogDetails::Delete { deleted_file_id: 42, path: "notes/log.md".to_string(), client_name: "Alice".to_string() }
    );
}
