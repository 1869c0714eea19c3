//! The server side: API keys, authentication, storage paths, request
//! handling decisions and error responses.
pub mod auth;
pub mod error;
pub mod handlers;
pub mod security;
pub mod storage;
