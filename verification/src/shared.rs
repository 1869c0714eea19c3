//! The data model and cryptography shared by client and server.
pub mod crypto;
pub mod digest;
pub mod encoding;
pub mod error;
pub mod types;
