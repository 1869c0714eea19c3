# rustsync

Keeps folders ("vaults") in sync between devices through a central server.

`src/` is the library, verified with Verus:

- `shared` — the data model (file metadata, clients, real-time messages),
  SHA-256 checksums, base64, and AES-256-GCM sealing of buffers.
- `server` — API keys (generation, fingerprint, Argon2 hash), bearer
  authentication, accepted upload paths and storage locations, the decisions
  of each request handler, and the mapping of errors to HTTP answers.
- `client` — configuration and vault namespaces, server addressing, the plan
  of a vault's first synchronisation, and the mapping of watcher events.
- `paths` — paths as component sequences, with their Unix meaning.
- `text` — character classes, trimming and string building.

`app/` holds the I/O around it: the axum/SQLite server, the reqwest client,
configuration files, directory scanning and watching, and the serde forms of
the library's types.
