use vstd::prelude::*;

verus! {

/// Errors of the shared layer. An I/O failure carries the failing path and
/// the rendered error.
#[derive(Debug, Clone, PartialEq, Eq)]
pub enum CoreError {
    Crypto(String),
    Serialization(String),
    FileNotFound { path: String },
    Io { path: String, message: String },
}

} // verus!
