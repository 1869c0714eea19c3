use rustsync::client::config::{normalize_namespace, normalize_relative_path, ClientConfig, ServerConnectionConfig, SyncConflictPolicy, VaultConfig};
use rustsync::client::error::ClientError;

fn vault(name: &str, remote_id: Option<&str>) -> VaultConfig {
    VaultConfig {
        name: name.to_string(),
        local_path: "./vault".to_string(),
        remote_id: remote_id.map(|s| s.to_string()),
    }
}

#[test]
fn namespace_uses_remote_id_when_present() {
    let vault = VaultConfig {
        name: "Primary Vault".to_string(),
        local_path: "./vault".to_string(),
        remote_id: Some("vault-main".to_string()),
    };
    assert_eq!(vault.namespace(), "vault-main");
}

#[test]
fn remote_path_roundtrip() {
    let vault = VaultConfig {
        name: "Primary Vault".to_string(),
        local_path: "./vault".to_string(),
        remote_id: Some("vault-main".to_string()),
    };
    let remote_path = vault.to_remote_path("notes/today.md");
    assert_eq!(remote_path, "vault-main/notes/today.md");
    assert_eq!(
        vault.from_remote_path(&remote_path),
        Some("notes/today.md".to_string())
    );
}

#[test]
fn namespace_falls_back_to_name_when_remote_id_blank() {
    assert_eq!(vault("Primary Vault", Some("   ")).namespace(), "primary-vault");
    assert_eq!(vault("Primary Vault", None).namespace(), "primary-vault");
}

#[test]
fn namespace_normalisation() {
    assert_eq!(normalize_namespace("  Hello,  World!! "), "hello-world");
    assert_eq!(normalize_namespace("--"), "vault");
    assert_eq!(normalize_namespace(""), "vault");
    assert_eq!(normalize_namespace("ÉtéVault2"), "t-vault2");
    assert_eq!(normalize_namespace(&normalize_namespace("A  B")), normalize_namespace("A  B"));
}

#[test]
fn namespace_ignores_case_and_surrounding_space() {
    let name = "\t My Notes 2024\u{a0}";
    assert_eq!(normalize_namespace(&name.to_ascii_uppercase()), normalize_namespace(name));
    assert_eq!(normalize_namespace(name.trim()), normalize_namespace(name));
    assert_eq!(normalize_namespace(name), "my-notes-2024");
}

#[test]
fn back_slashes_become_slashes() {
    assert_eq!(normalize_relative_path("notes\\a\\b.md"), "notes/a/b.md");
    let v = vault("Main", Some("main"));
    assert_eq!(v.to_remote_path("notes\\x.md"), "main/notes/x.md");
    assert_eq!(v.from_remote_path("main/notes\\x.md"), Some("notes/x.md".to_string()));
}

#[test]
fn other_namespace_is_not_in_vault() {
    let v = vault("Main", Some("main"));
    assert_eq!(v.from_remote_path("other/notes/x.md"), None);
    assert_eq!(v.from_remote_path("main"), None);
}

#[test]
fn sample_config_is_valid() {
    let config = ClientConfig::sample();
    assert_eq!(config.server.url, "http://127.0.0.1:8080");
    assert_eq!(config.vaults.len(), 1);
    assert_eq!(config.sync_conflict_policy, SyncConflictPolicy::SkipAndLogConflict);
    assert_eq!(config.validate(), Ok(()));
}

#[test]
fn validation_errors_in_order() {
    let mut config = ClientConfig::sample();
    config.server.url = " ".to_string();
    assert_eq!(config.validate(), Err(ClientError::InvalidConfig("server.url cannot be empty".to_string())));

    let mut config = ClientConfig::sample();
    config.server.api_key = "".to_string();
    assert_eq!(config.validate(), Err(ClientError::InvalidConfig("server.api_key cannot be empty".to_string())));

    let mut config = ClientConfig::sample();
    config.vaults.clear();
    assert_eq!(
        config.validate(),
        Err(ClientError::InvalidConfig("At least one vault must be configured".to_string()))
    );

    let config = ClientConfig {
        server: ServerConnectionConfig { url: "http://x".to_string(), api_key: "k".to_string() },
        vaults: vec![vault("ok", None), vault("\t", None)],
        sync_conflict_policy: SyncConflictPolicy::default(),
    };
    assert_eq!(config.validate(), Err(ClientError::InvalidConfig("Vault name cannot be empty".to_string())));
}
