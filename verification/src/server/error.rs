use vstd::prelude::*;
use crate::text::concat_str;

verus! {

/// Errors of the server, each answered with an HTTP status. Database and
/// file-system failures carry their rendered message, which is logged but
/// not sent.
#[derive(Debug, Clone, PartialEq, Eq)]
pub enum AppError {
    Unauthorized(String),
    BadRequest(String),
    NotFound(String),
    Database(String),
    Io(String),
    Internal(String),
}

pub type AppResult<T> = Result<T, AppError>;

/// The body and status that answer an error.
#[derive(Debug, Clone, PartialEq, Eq)]
pub struct ErrorResponse {
    pub status: u16,
    pub error: String,
    pub message: String,
}

/// The HTTP status that answers an error.
pub open spec fn status_spec(e: AppError) -> u16 {
    match e {
        AppError::Unauthorized(_) => 401,
        AppError::BadRequest(_) => 400,
        AppError::NotFound(_) => 404,
        _ => 500,
    }
}

/// The error code sent with an error.
pub open spec fn code_spec(e: AppError) -> Seq<char> {
    match e {
        AppError::Unauthorized(_) => "unauthorized"@,
        AppError::BadRequest(_) => "bad_request"@,
        AppError::NotFound(_) => "not_found"@,
        _ => "internal_error"@,
    }
}

/// The message sent with an error: the error's own for client errors and
/// internal errors, a fixed text for database and file-system failures.
pub open spec fn message_spec(e: AppError) -> Seq<char> {
    match e {
        AppError::Unauthorized(m) => m@,
        AppError::BadRequest(m) => m@,
        AppError::NotFound(m) => m@,
        AppError::Database(_) => "A database error occurred"@,
        AppError::Io(_) => "A file system error occurred"@,
        AppError::Internal(m) => m@,
    }
}

impl AppError {
    /// The status, error code and message that answer this error.
    pub fn response_parts(&self) -> (r: ErrorResponse)
        ensures
            r.status == status_spec(*self),
            r.error@ == code_spec(*self),
            r.message@ == message_spec(*self),
            *self is BadRequest ==> r.status == 400,
            *self is Unauthorized ==> r.status == 401,
            *self is NotFound ==> r.status == 404,
            (*self is Database || *self is Io || *self is Internal) ==> r.status == 500,
    {
        match self {
            AppError::Unauthorized(message) => ErrorResponse {
                status: 401,
                error: String::from_str("unauthorized"),
                message: message.clone(),
            },
            AppError::BadRequest(message) => ErrorResponse {
                status: 400,
                error: String::from_str("bad_request"),
                message: message.clone(),
            },
            AppError::NotFound(message) => ErrorResponse {
                status: 404,
                error: String::from_str("not_found"),
                message: message.clone(),
            },
            AppError::Database(_) => ErrorResponse {
                status: 500,
                error: String::from_str("internal_error"),
                message: String::from_str("A database error occurred"),
            },
            AppError::Io(_) => ErrorResponse {
                status: 500,
                error: String::from_str("internal_error"),
                message: String::from_str("A file system error occurred"),
            },
            AppError::Internal(message) => ErrorResponse {
                status: 500,
                error: String::from_str("internal_error"),
                message: message.clone(),
            },
        }
    }

    /// The error for a failure of password hashing.
    pub fn password_hashing(detail: &str) -> (r: AppError)
        ensures
            r matches AppError::Internal(m) && m@ == "Password hashing failed: "@ + detail@,
            r matches AppError::Internal(m) && "Password hashing failed: "@.is_prefix_of(m@),
    {
        let m = concat_str("Password hashing failed: ", detail);
        assert(m@.subrange(0, "Password hashing failed: "@.len() as int) =~= "Password hashing failed: "@);
        AppError::Internal(m)
    }

    /// The error for a failure of the database migration.
    pub fn migration(detail: &str) -> (r: AppError)
        ensures
            r matches AppError::Internal(m) && m@ == "Database migration failed: "@ + detail@,
    {
        AppError::Internal(concat_str("Database migration failed: ", detail))
    }
}

/// Law: each error is answered with its own HTTP status (a bad request with
/// 400, a refused authentication with 401, a missing resource with 404, any
/// failure of the server with 500), so a client error is never answered as a
/// server failure; and the details of database and file-system failures
/// never reach the client.
pub proof fn lemma_error_statuses(e: AppError)
    ensures
        e is BadRequest ==> status_spec(e) == 400 && code_spec(e) == "bad_request"@,
        e is Unauthorized ==> status_spec(e) == 401 && code_spec(e) == "unauthorized"@,
        e is NotFound ==> status_spec(e) == 404 && code_spec(e) == "not_found"@,
        (e is Database || e is Io || e is Internal) ==> status_spec(e) == 500 && code_spec(e) == "internal_error"@,
        (e is Unauthorized || e is BadRequest || e is NotFound) <==> status_spec(e) < 500,
        e is Database ==> message_spec(e) == "A database error occurred"@,
        e is Io ==> message_spec(e) == "A file system error occurred"@,
{
}

} // verus!
