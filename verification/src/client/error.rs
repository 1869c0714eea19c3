use vstd::prelude::*;
use crate::shared::error::CoreError;

verus! {

/// Errors of the sync client. Errors raised by I/O, encoders or the HTTP
/// stack are carried as their rendered message.
#[derive(Debug, Clone, PartialEq, Eq)]
pub enum ClientError {
    Io(String),
    Json(String),
    TomlDe(String),
    TomlSer(String),
    Http(String),
    Notify(String),
    Core(CoreError),
    InvalidConfig(String),
    InvalidPath(String),
    InvalidServerUrl(String),
    HttpStatus { status: u16, body: String },
}

pub type ClientResult<T> = Result<T, ClientError>;

} // verus!
