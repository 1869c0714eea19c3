//! The decisions of the server's request handlers: what a request must
//! hold, what is stored, and what is answered. Reading and writing the
//! database and the files happens around these functions.
use vstd::prelude::*;
use crate::server::auth::{AuthenticatedClient, authenticate_spec, bearer_header_bytes, bearer_outcome_spec, lemma_bearer_roundtrip, ClientAuthRow};
use crate::server::error::{AppError, AppResult};
use crate::server::security::{
    argon2_verifies_spec, contains_seq, decode_base64_field, decode_field_spec, fingerprint_api_key, fingerprint_spec,
    generate_api_key, hash_api_key, is_api_key, is_phc_char, lemma_phc_text_never_holds_api_key, phc_parses_spec,
};
use crate::server::storage::{path_error_spec, validate_relative_file_path};
use crate::shared::digest::{checksum_bytes, checksum_spec};
use crate::shared::encoding::is_url_safe_b64_char;
use crate::shared::types::{is_uuid_v4, new_uuid, now_timestamp, FileMetadata, FileRead, Timestamp};
use crate::text::{concat_str, trim_chars, trim_spec, TrimSet};
use vstd::utf8::{encode_utf8, is_ascii_chars, is_ascii_chars_encode_utf8};

verus! {

/// The answer of the health endpoint.
#[derive(Debug, Clone, PartialEq, Eq)]
pub struct HealthResponse {
    pub status: String,
}

/// The server is up.
pub fn health() -> (r: HealthResponse)
    ensures
        r.status@ == "ok"@,
{
    HealthResponse { status: String::from_str("ok") }
}

#[derive(Debug, Clone, PartialEq, Eq)]
pub struct RegisterClientRequest {
    pub name: String,
    /// The client's public key in base64.
    pub public_key: String,
}

#[derive(Debug, Clone, PartialEq, Eq)]
pub struct RegisterClientResponse {
    pub client_id: u128,
    pub name: String,
    pub registered_at: Timestamp,
    pub api_key: String,
}

/// What is stored for a newly registered client. The API key itself is
/// handed to the client once and only its fingerprint and hash are kept.
#[derive(Debug, Clone, PartialEq, Eq)]
pub struct NewClientRecord {
    pub client_id: u128,
    pub name: String,
    pub public_key: Vec<u8>,
    pub api_key: String,
    pub api_key_fingerprint: String,
    pub api_key_hash: String,
    pub registered_at: Timestamp,
}

/// A registration record whose key, fingerprint and hash belong together.
pub open spec fn record_valid(rec: NewClientRecord) -> bool {
    &&& is_api_key(rec.api_key@)
    &&& rec.api_key_fingerprint@ == fingerprint_spec(rec.api_key@)
    &&& phc_parses_spec(rec.api_key_hash@)
    &&& argon2_verifies_spec(rec.api_key@, rec.api_key_hash@)
    &&& rec.api_key_hash@.len() > 0
    &&& rec.api_key_hash@[0] == '$'
    &&& forall|i: int| 0 <= i < rec.api_key_hash@.len() ==> is_phc_char(#[trigger] rec.api_key_hash@[i])
}

/// Checks a registration request and prepares the new client: a blank name
/// or a public key that is not base64 or is empty is a bad request; any
/// other request succeeds.
pub fn prepare_registration(request: &RegisterClientRequest) -> (r: AppResult<NewClientRecord>)
    ensures
        ({
            let name = trim_spec(TrimSet::White, request.name@);
            if name.len() == 0 {
                r matches Err(AppError::BadRequest(m)) && m@ == "Client name cannot be empty"@
            } else {
                match decode_field_spec(request.public_key@) {
                    None => r matches Err(AppError::BadRequest(m)) && m@ == "public_key must be valid base64"@,
                    Some(key) => if key.len() == 0 {
                        r matches Err(AppError::BadRequest(m)) && m@ == "public_key cannot be empty"@
                    } else {
                        r matches Ok(rec) && rec.name@ == name && rec.public_key@ == key && record_valid(rec)
                            && is_uuid_v4(rec.client_id)
                    },
                }
            }
        }),
{
    let name = trim_chars(request.name.as_str(), TrimSet::White);
    if name.as_str().unicode_len() == 0 {
        return Err(AppError::BadRequest(String::from_str("Client name cannot be empty")));
    }
    let public_key = match decode_base64_field(request.public_key.as_str(), "public_key") {
        Ok(key) => key,
        Err(e) => {
            proof { reveal_strlit("public_key"); reveal_strlit(" must be valid base64"); reveal_strlit("public_key must be valid base64"); }
            return Err(e);
        },
    };
    if public_key.len() == 0 {
        return Err(AppError::BadRequest(String::from_str("public_key cannot be empty")));
    }
    let client_id = new_uuid();
    let api_key = generate_api_key();
    let api_key_fingerprint = fingerprint_api_key(api_key.as_str());
    proof { lemma_api_key_bytes(api_key@); }
    let api_key_hash = match hash_api_key(api_key.as_str()) {
        Ok(h) => h,
        Err(e) => {
            return Err(e);
        },
    };
    let registered_at = now_timestamp();
    Ok(NewClientRecord { client_id, name, public_key, api_key, api_key_fingerprint, api_key_hash, registered_at })
}

/// An API key is ASCII, so its UTF-8 bytes are as many as its characters.
proof fn lemma_api_key_bytes(key: Seq<char>)
    requires
        is_api_key(key),
    ensures
        encode_utf8(key).len() == 47,
{
    assert(is_ascii_chars(key)) by {
        assert forall|i: int| 0 <= i < key.len() implies '\0' <= #[trigger] key[i] <= '\u{7f}' by {
            assert(is_url_safe_b64_char(key[i]));
        }
    }
    is_ascii_chars_encode_utf8(key);
}

/// The answer to a registration: the client's id, name, time and API key.
pub fn registration_response(rec: &NewClientRecord) -> (r: RegisterClientResponse)
    ensures
        r.client_id == rec.client_id,
        r.name@ == rec.name@,
        r.registered_at == rec.registered_at,
        r.api_key@ == rec.api_key@,
{
    RegisterClientResponse {
        client_id: rec.client_id,
        name: rec.name.clone(),
        registered_at: rec.registered_at,
        api_key: rec.api_key.clone(),
    }
}

/// Law: a registered client authenticates with the key it was given. The
/// key it sends as `Bearer <key>` is read back, its fingerprint finds the
/// stored row, the row's hash verifies it, and the stored hash neither is
/// nor contains the key.
pub proof fn lemma_registered_client_authenticates(rec: NewClientRecord, row: ClientAuthRow)
    requires
        record_valid(rec),
        row.id == rec.client_id,
        row.name@ == rec.name@,
        row.api_key_hash@ == rec.api_key_hash@,
    ensures
        bearer_outcome_spec(Some(bearer_header_bytes(rec.api_key@))) == Ok::<Seq<char>, Seq<char>>(rec.api_key@),
        fingerprint_spec(rec.api_key@) == rec.api_key_fingerprint@,
        authenticate_spec(rec.api_key@, Some(row)) == Ok::<(u128, Seq<char>), Option<Seq<char>>>((rec.client_id, rec.name@)),
        rec.api_key_hash@ != rec.api_key@,
        !contains_seq(rec.api_key_hash@, rec.api_key@),
{
    lemma_phc_text_never_holds_api_key(rec.api_key_hash@, rec.api_key@);
    let key = rec.api_key@;
    assert forall|i: int| 0 <= i < key.len() implies ('!' <= #[trigger] key[i] && key[i] <= '~') by {
        assert(is_url_safe_b64_char(key[i]));
    }
    lemma_bearer_roundtrip(key);
    assert(key.subrange(0, 4)[0] == key[0]);
}

#[derive(Debug, Clone, PartialEq, Eq)]
pub struct UploadFileRequest {
    pub path: String,
    pub content_base64: String,
}

#[derive(Debug, Clone, PartialEq)]
pub struct UploadFileResponse {
    pub metadata: FileMetadata,
}

/// A checked upload: its path, content, size and checksum.
#[derive(Debug, Clone, PartialEq, Eq)]
pub struct PreparedUpload {
    pub path: String,
    pub content: Vec<u8>,
    pub size: u64,
    pub checksum: String,
}

/// Checks an upload request: the path must be a safe relative path and the
/// content valid base64; the checksum is the SHA-256 digest of the content.
pub fn prepare_upload(request: UploadFileRequest) -> (r: AppResult<PreparedUpload>)
    ensures
        match path_error_spec(request.path@) {
            Some(m) => r matches Err(AppError::BadRequest(msg)) && msg@ == m,
            None => match decode_field_spec(request.content_base64@) {
                None => r matches Err(AppError::BadRequest(m)) && m@ == "content_base64 must be valid base64"@,
                Some(content) => r matches Ok(u) && u.path@ == request.path@ && u.content@ == content
                    && u.size == content.len() && u.checksum@ == checksum_spec(content),
            },
        },
{
    match validate_relative_file_path(request.path.as_str()) {
        Ok(()) => {},
        Err(e) => {
            return Err(e);
        },
    }
    let content = match decode_base64_field(request.content_base64.as_str(), "content_base64") {
        Ok(c) => c,
        Err(e) => {
            proof { reveal_strlit("content_base64"); reveal_strlit(" must be valid base64"); reveal_strlit("content_base64 must be valid base64"); }
            return Err(e);
        },
    };
    let size = content.len() as u64;
    let checksum = checksum_bytes(content.as_slice());
    Ok(PreparedUpload { path: request.path, content, size, checksum })
}

/// The stored row of a file with the same path, if any.
#[derive(Debug, Clone, PartialEq, Eq)]
pub struct ExistingFileRow {
    pub id: u128,
    pub version: i64,
}

/// How an upload is written: to which file, with which version and size.
#[derive(Debug, Clone, PartialEq, Eq)]
pub struct FileWrite {
    pub file_id: u128,
    pub version: i64,
    pub size: i64,
    /// Whether the file is new (inserted) rather than replaced (updated).
    pub created: bool,
}

/// Decides how an upload is written. A path already stored keeps its file
/// and gets the next version; a new path gets a fresh file at version 1.
/// A version or size that the database integer cannot hold is an internal error.
pub fn plan_file_write(existing: Option<ExistingFileRow>, size: u64) -> (r: AppResult<FileWrite>)
    ensures
        match existing {
            Some(row) => if row.version == i64::MAX {
                r matches Err(AppError::Internal(m)) && m@ == "File version overflow"@
            } else if size > i64::MAX {
                r matches Err(AppError::Internal(m)) && m@ == "File size cannot fit database integer type"@
            } else {
                r matches Ok(w) && w.file_id == row.id && w.version == row.version + 1 && w.size == size && !w.created
            },
            None => if size > i64::MAX {
                r matches Err(AppError::Internal(m)) && m@ == "File size cannot fit database integer type"@
            } else {
                r matches Ok(w) && w.version == 1 && w.size == size && w.created && is_uuid_v4(w.file_id)
            },
        },
{
    match existing {
        Some(row) => {
            if row.version == i64::MAX {
                return Err(AppError::Internal(String::from_str("File version overflow")));
            }
            let next_version = row.version + 1;
            if size > i64::MAX as u64 {
                return Err(AppError::Internal(String::from_str("File size cannot fit database integer type")));
            }
            Ok(FileWrite { file_id: row.id, version: next_version, size: size as i64, created: false })
        },
        None => {
            if size > i64::MAX as u64 {
                return Err(AppError::Internal(String::from_str("File size cannot fit database integer type")));
            }
            let file_id = new_uuid();
            Ok(FileWrite { file_id, version: 1, size: size as i64, created: true })
        },
    }
}

/// The message for a stored integer that is negative.
pub open spec fn negative_value_message(field: Seq<char>) -> Seq<char> {
    "Database value for "@ + field + " cannot be represented as unsigned integer"@
}

/// A stored integer as an unsigned one; a negative value is an internal error.
pub fn as_u64(value: i64, field: &str) -> (r: AppResult<u64>)
    ensures
        value >= 0 ==> r == Ok::<u64, AppError>(value as u64),
        value < 0 ==> (r matches Err(AppError::Internal(m)) && m@ == negative_value_message(field@)),
{
    if value >= 0 {
        Ok(value as u64)
    } else {
        let head = concat_str("Database value for ", field);
        Err(AppError::Internal(concat_str(head.as_str(), " cannot be represented as unsigned integer")))
    }
}

/// The metadata answered for a completed upload.
pub fn upload_metadata(write: &FileWrite, upload: PreparedUpload, now: Timestamp) -> (r: AppResult<FileMetadata>)
    ensures
        write.version >= 0 ==> (r matches Ok(m) && m.id == write.file_id && m.path@ == upload.path@ && m.size == upload.size
            && m.checksum@ == upload.checksum@ && m.last_modified == now && m.version == write.version),
        write.version < 0 ==> (r matches Err(AppError::Internal(m)) && m@ == negative_value_message("version"@)),
{
    let version = match as_u64(write.version, "version") {
        Ok(v) => v,
        Err(e) => {
            return Err(e);
        },
    };
    Ok(FileMetadata {
        id: write.file_id,
        path: upload.path,
        size: upload.size,
        checksum: upload.checksum,
        last_modified: now,
        version,
    })
}

/// A stored file as the database returns it.
#[derive(Debug, Clone, PartialEq, Eq)]
pub struct StoredFileRow {
    pub id: u128,
    pub path: String,
    pub size: i64,
    pub checksum: String,
    pub last_modified: Timestamp,
    pub version: i64,
}

/// The metadata of a stored row whose integers are not negative.
pub open spec fn row_matches(row: StoredFileRow, m: FileMetadata) -> bool {
    &&& m.id == row.id
    &&& m.path@ == row.path@
    &&& m.size == row.size
    &&& m.checksum@ == row.checksum@
    &&& m.last_modified == row.last_modified
    &&& m.version == row.version
}

/// The stored files as metadata, in the order given. The first row with a
/// negative size, or else a negative version, is an internal error naming
/// that field.
pub fn rows_to_file_list(rows: Vec<StoredFileRow>) -> (r: AppResult<Vec<FileMetadata>>)
    ensures
        match r {
            Ok(list) => list@.len() == rows@.len()
                && (forall|i: int| 0 <= i < rows@.len() ==> row_matches(rows@[i], #[trigger] list@[i])),
            Err(e) => exists|i: int| 0 <= i < rows@.len()
                && (forall|k: int| 0 <= k < i ==> rows@[k].size >= 0 && rows@[k].version >= 0)
                && (#[trigger] rows@[i].size < 0 ==> (e matches AppError::Internal(m) && m@ == negative_value_message("size"@)))
                && (rows@[i].size >= 0 ==> rows@[i].version < 0 && (e matches AppError::Internal(m) && m@ == negative_value_message("version"@))),
        },
        r is Ok <==> forall|i: int| 0 <= i < rows@.len() ==> #[trigger] rows@[i].size >= 0 && rows@[i].version >= 0,
{
    let mut list: Vec<FileMetadata> = Vec::new();
    let mut i: usize = 0;
    while i < rows.len()
        invariant
            i <= rows@.len(),
            list@.len() == i,
            forall|k: int| 0 <= k < i ==> rows@[k].size >= 0 && rows@[k].version >= 0,
            forall|k: int| 0 <= k < i ==> row_matches(rows@[k], #[trigger] list@[k]),
        decreases rows@.len() - i,
    {
        let row = &rows[i];
        let size = match as_u64(row.size, "size") {
            Ok(s) => s,
            Err(e) => {
                return Err(e);
            },
        };
        let version = match as_u64(row.version, "version") {
            Ok(v) => v,
            Err(e) => {
                return Err(e);
            },
        };
        list.push(FileMetadata {
            id: row.id,
            path: row.path.clone(),
            size,
            checksum: row.checksum.clone(),
            last_modified: row.last_modified,
            version,
        });
        i += 1;
    }
    Ok(list)
}

/// The query of the log endpoint.
#[derive(Debug, Clone, PartialEq, Eq)]
pub struct LogQueryParams {
    pub limit: Option<i64>,
}

/// How many log entries are answered: the requested count raised to 1 and
/// capped at the configured maximum, or 50 capped at the maximum when none
/// is requested.
pub open spec fn log_limit_spec(requested: Option<i64>, max_entries: i64) -> i64 {
    match requested {
        Some(v) => {
            let at_least_one = if v > 1 { v } else { 1 };
            if at_least_one < max_entries { at_least_one } else { max_entries }
        },
        None => if 50 < max_entries { 50 } else { max_entries },
    }
}

/// Law: a requested count is answered as asked when it lies between 1 and
/// the maximum; below 1 it is raised to 1, above the maximum it is capped
/// there, and with no request it is 50, capped at the maximum. In every case
/// the answer is at most the maximum and, when the maximum allows it, at
/// least 1.
pub proof fn lemma_log_limit(requested: Option<i64>, max_entries: i64)
    ensures
        requested is Some && 1 <= requested->0 && requested->0 <= max_entries ==> log_limit_spec(requested, max_entries) == requested->0,
        requested is Some && requested->0 < 1 && 1 <= max_entries ==> log_limit_spec(requested, max_entries) == 1,
        requested is Some && requested->0 > max_entries ==> log_limit_spec(requested, max_entries) == max_entries,
        requested is None ==> log_limit_spec(requested, max_entries) == (if max_entries < 50 { max_entries } else { 50 }),
        log_limit_spec(requested, max_entries) <= max_entries,
        max_entries >= 1 ==> log_limit_spec(requested, max_entries) >= 1,
{
}

/// The number of log entries to answer for a query.
pub fn effective_log_limit(requested: Option<i64>, max_entries: i64) -> (r: i64)
    ensures
        r == log_limit_spec(requested, max_entries),
        r <= max_entries,
        max_entries >= 1 ==> r >= 1,
        requested is Some && 1 <= requested->0 && requested->0 <= max_entries ==> r == requested->0,
        requested is Some && requested->0 < 1 && 1 <= max_entries ==> r == 1,
        requested is Some && requested->0 > max_entries ==> r == max_entries,
        requested is None ==> r == (if max_entries < 50 { max_entries } else { 50 }),
{
    proof { lemma_log_limit(requested, max_entries); }
    match requested {
        Some(v) => {
            let at_least_one = if v > 1 { v } else { 1 };
            if at_least_one < max_entries { at_least_one } else { max_entries }
        },
        None => if 50 < max_entries { 50 } else { max_entries },
    }
}

/// A stored file's id and path.
#[derive(Debug, Clone, PartialEq, Eq)]
pub struct StoredFilePathRow {
    pub id: u128,
    pub path: String,
}

/// The row of a requested file; a missing row is "File not found".
pub fn require_file(row: Option<StoredFilePathRow>) -> (r: AppResult<StoredFilePathRow>)
    ensures
        match row {
            Some(x) => r == Ok::<StoredFilePathRow, AppError>(x),
            None => r matches Err(AppError::NotFound(m)) && m@ == "File not found"@,
        },
{
    match row {
        Some(x) => Ok(x),
        None => Err(AppError::NotFound(String::from_str("File not found"))),
    }
}

/// The content of a stored file from the outcome of reading it: missing
/// content is "File content not found", another failure a file-system error.
pub fn stored_content(read: FileRead) -> (r: AppResult<Vec<u8>>)
    ensures
        match read {
            FileRead::Content(c) => r == Ok::<Vec<u8>, AppError>(c),
            FileRead::NotFound => r matches Err(AppError::NotFound(m)) && m@ == "File content not found"@,
            FileRead::Failed(msg) => r == Err::<Vec<u8>, AppError>(AppError::Io(msg)),
        },
{
    match read {
        FileRead::Content(c) => Ok(c),
        FileRead::NotFound => Err(AppError::NotFound(String::from_str("File content not found"))),
        FileRead::Failed(msg) => Err(AppError::Io(msg)),
    }
}

/// What the log records of a file action beside its name.
#[derive(Debug, Clone, PartialEq, Eq)]
pub enum FileLogDetails {
    Upload { path: String, client_name: String, version: i64, checksum: String },
    Delete { deleted_file_id: u128, path: String, client_name: String },
}

/// A log entry of a file action: the file it concerns (none once the file
/// is deleted), the acting client, the action's name and its details.
#[derive(Debug, Clone, PartialEq, Eq)]
pub struct FileLogRecord {
    pub file_id: Option<u128>,
    pub client_id: u128,
    pub action: String,
    pub details: FileLogDetails,
}

/// The log entry of an upload: the written file, the uploading client, and
/// the path, client name, new version and checksum.
pub fn upload_log_record(client: &AuthenticatedClient, write: &FileWrite, upload: &PreparedUpload) -> (r: FileLogRecord)
    ensures
        r.file_id == Some(write.file_id),
        r.client_id == client.id,
        r.action@ == "upload"@,
        r.details matches FileLogDetails::Upload { path, client_name, version, checksum }
            && path@ == upload.path@ && client_name@ == client.name@ && version == write.version
            && checksum@ == upload.checksum@,
{
    FileLogRecord {
        file_id: Some(write.file_id),
        client_id: client.id,
        action: String::from_str("upload"),
        details: FileLogDetails::Upload {
            path: upload.path.clone(),
            client_name: client.name.clone(),
            version: write.version,
            checksum: upload.checksum.clone(),
        },
    }
}

/// The log entry of a deletion: no file any more, the deleting client, and
/// the deleted file's id and path with the client's name.
pub fn delete_log_record(client: &AuthenticatedClient, file: &StoredFilePathRow) -> (r: FileLogRecord)
    ensures
        r.file_id is None,
        r.client_id == client.id,
        r.action@ == "delete"@,
        r.details matches FileLogDetails::Delete { deleted_file_id, path, client_name }
            && deleted_file_id == file.id && path@ == file.path@ && client_name@ == client.name@,
{
    FileLogRecord {
        file_id: None,
        client_id: client.id,
        action: String::from_str("delete"),
        details: FileLogDetails::Delete {
            deleted_file_id: file.id,
            path: file.path.clone(),
            client_name: client.name.clone(),
        },
    }
}

} // verus!
