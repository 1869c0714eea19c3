use rustsync::client::api::{
    check_health, empty_response_ok, http_status_error, normalize_base_url, registration_endpoint, registration_request,
    status_is_success, upload_request, HealthResponse, ServerApi,
};
use rustsync::client::config::{ServerConnectionConfig, SyncConflictPolicy, VaultConfig};
use rustsync::client::error::ClientError;
use rustsync::client::sync::{find_remote_file_id, plan_vault_sync, relative_path_string, remote_index_for_vault, LocalFileSnapshot};
use rustsync::client::watcher::{event_for_path, event_kind_for, to_relative_path, FileEventKind, WatchedChange};
use rustsync::shared::types::{FileMetadata, Timestamp};

fn main_vault() -> VaultConfig {
    VaultConfig {
        name: "Main".to_string(),
        local_path: "/tmp/vault".to_string(),
        remote_id: Some("main-vault".to_string()),
    }
}

fn remote(id: u128, path: &str, checksum: &str) -> FileMetadata {
    FileMetadata { id, path: path.to_string(), size: 1, checksum: checksum.to_string(), last_modified: Timestamp { secs: 0, nanos: 0 }, version: 1 }
}

fn local(rel: &str, checksum: &str) -> LocalFileSnapshot {
    LocalFileSnapshot {
        absolute_path: format!("/tmp/vault/{rel}"),
        relative_path: rel.to_string(),
        checksum: checksum.to_string(),
    }
}

#[test]
fn relative_path_uses_forward_slashes() {
    let relative = relative_path_string("/tmp/vault", "/tmp/vault/notes/today.md").expect("relative path should work");
    assert_eq!(relative, "notes/today.md");
}

#[test]
fn relative_path_outside_root_is_refused() {
    let err = relative_path_string("/tmp/vault", "/tmp/other/a.md").unwrap_err();
    assert_eq!(err, ClientError::InvalidPath("Path '/tmp/other/a.md' is outside vault root '/tmp/vault'".to_string()));
    let err = relative_path_string("/tmp/vault", "/tmp/vault/../x").unwrap_err();
    assert_eq!(err, ClientError::InvalidPath("Relative path contains unsupported component: /tmp/vault/../x".to_string()));
    assert_eq!(relative_path_string("/tmp/vault/", "/tmp//vault/./a/b").unwrap(), "a/b");
}

#[test]
fn remote_index_keeps_vault_files_last_wins() {
    let files = vec![
        remote(1, "main-vault/a.md", "x"),
        remote(2, "other/b.md", "y"),
        remote(3, "main-vault/a.md", "z"),
    ];
    let index = remote_index_for_vault(&main_vault(), &files);
    assert_eq!(index.len(), 1);
    assert_eq!(index[0].relative_path, "a.md");
    assert_eq!(index[0].file.id, 3);
}

#[test]
fn initial_sync_plan_downloads_uploads_and_skips_conflicts() {
    let files = vec![
        remote(1, "main-vault/notes/remote.md", "r"),
        remote(2, "main-vault/notes/conflict.md", "remote"),
        remote(3, "main-vault/notes/same.md", "s"),
    ];
    let locals = vec![local("notes/local.md", "l"), local("notes/conflict.md", "local"), local("notes/same.md", "s")];
    let plan = plan_vault_sync(&main_vault(), &SyncConflictPolicy::SkipAndLogConflict, &files, &locals);

    assert_eq!(plan.downloads.len(), 1);
    assert_eq!(plan.downloads[0].file_id, 1);
    assert_eq!(plan.downloads[0].relative_path, "notes/remote.md");
    assert_eq!(plan.uploads.len(), 1);
    assert_eq!(plan.uploads[0].remote_path, "main-vault/notes/local.md");
    assert_eq!(plan.uploads[0].absolute_path, "/tmp/vault/notes/local.md");
    assert_eq!(plan.conflicts.len(), 1);
    assert_eq!(plan.conflicts[0].relative_path, "notes/conflict.md");
    assert_eq!(plan.conflicts[0].local_checksum, "local");
    assert_eq!(plan.conflicts[0].remote_checksum, "remote");
}

#[test]
fn find_remote_file_takes_first_match() {
    let files = vec![remote(7, "a", "x"), remote(8, "b", "y"), remote(9, "b", "z")];
    assert_eq!(find_remote_file_id(&files, "b"), Some(8));
    assert_eq!(find_remote_file_id(&files, "c"), None);
}

#[test]
fn watcher_paths_map_into_the_vault() {
    assert_eq!(to_relative_path("/tmp/vault", "/tmp/vault/notes/a.md").unwrap(), Some("notes/a.md".to_string()));
    assert_eq!(to_relative_path("/tmp/vault", "/tmp/vault").unwrap(), None);
    assert_eq!(to_relative_path("/tmp/vault", "/elsewhere/a.md").unwrap(), None);
    assert!(matches!(to_relative_path("/tmp/vault", "/tmp/vault/../a"), Err(ClientError::InvalidPath(_))));

    let v = main_vault();
    let event = event_for_path(&v, "/tmp/vault", "/tmp/vault/notes/a.md", FileEventKind::Upsert, true).unwrap().unwrap();
    assert_eq!(event.kind, FileEventKind::Upsert);
    assert_eq!(event.remote_path, "main-vault/notes/a.md");
    assert_eq!(event.local_path, "/tmp/vault/notes/a.md");
    assert_eq!(event_for_path(&v, "/tmp/vault", "/tmp/vault/notes", FileEventKind::Upsert, false).unwrap(), None);
    assert!(event_for_path(&v, "/tmp/vault", "/tmp/vault/gone.md", FileEventKind::Remove, false).unwrap().is_some());
}

#[test]
fn api_urls() {
    assert_eq!(normalize_base_url("http://example.com/").unwrap(), "http://example.com");
    assert_eq!(normalize_base_url("HTTP://Example.COM:80/a/../b").unwrap(), "http://example.com/b");
    assert!(matches!(normalize_base_url("not a url"), Err(ClientError::InvalidServerUrl(_))));
    let api = ServerApi::new(&ServerConnectionConfig { url: "http://127.0.0.1:8080".to_string(), api_key: "k".to_string() }).unwrap();
    assert_eq!(api.base_url, "http://127.0.0.1:8080");
    assert_eq!(api.endpoint("/api/files"), "http://127.0.0.1:8080/api/files");
    assert_eq!(
        api.download_endpoint(0x67e5_5044_10b1_426f_9247_bb68_0e5f_e0c8),
        "http://127.0.0.1:8080/api/files/67e55044-10b1-426f-9247-bb680e5fe0c8/download"
    );
    assert_eq!(api.logs_endpoint(120), "http://127.0.0.1:8080/api/logs?limit=120");
    assert_eq!(api.logs_endpoint(0), "http://127.0.0.1:8080/api/logs?limit=0");
    assert_eq!(registration_endpoint("http://h:1").unwrap(), "http://h:1/api/clients/register");
}

#[test]
fn api_bodies_and_statuses() {
    let req = registration_request("Uploader", b"pub-key");
    assert_eq!(req.public_key, "cHViLWtleQ==");
    let up = upload_request("main-vault/a.md", b"remote data");
    assert_eq!(up.content_base64, "cmVtb3RlIGRhdGE=");
    assert!(status_is_success(200) && status_is_success(299) && !status_is_success(300));
    assert!(empty_response_ok(204) && !empty_response_ok(404));
    assert_eq!(http_status_error(500, "x".to_string()), ClientError::HttpStatus { status: 500, body: "x".to_string() });
    assert_eq!(check_health(&HealthResponse { status: "ok".to_string() }), Ok(()));
    assert_eq!(
        check_health(&HealthResponse { status: "down".to_string() }),
        Err(ClientError::InvalidConfig("Server health endpoint returned unexpected status 'down'".to_string()))
    );
}

#[test]
fn watched_changes_map_to_sync_events() {
    assert_eq!(event_kind_for(WatchedChange::Create), Some(FileEventKind::Upsert));
    assert_eq!(event_kind_for(WatchedChange::Modify), Some(FileEventKind::Upsert));
    assert_eq!(event_kind_for(WatchedChange::Remove), Some(FileEventKind::Remove));
    assert_eq!(event_kind_for(WatchedChange::Other), None);
}
