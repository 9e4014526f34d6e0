//! The application's error type and the HTTP answer for each kind of error.
use vstd::prelude::*;

verus! {

/// Errors of the application. Each carries its message; an unexpected
/// error carries the text of the underlying failure, which is logged and
/// never shown to the caller.
#[derive(Debug)]
pub enum AppError {
    Auth(String),
    Forbidden(String),
    NotFound(String),
    BadRequest(String),
    ValidationError(String),
    RateLimit(String),
    Conflict(String),
    UnexpectedError(String),
}

/// The status and message answered for an error.
pub open spec fn error_answer(e: AppError) -> (u16, Seq<char>) {
    match e {
        AppError::Auth(m) => (401, m@),
        AppError::Forbidden(m) => (403, m@),
        AppError::NotFound(m) => (404, m@),
        AppError::BadRequest(m) => (400, m@),
        AppError::RateLimit(m) => (429, m@),
        AppError::Conflict(m) => (409, m@),
        AppError::ValidationError(m) => (422, m@),
        AppError::UnexpectedError(_) => (500, "Internal Server Error"@),
    }
}

impl AppError {
    /// The HTTP status and the message sent for this error; unexpected
    /// errors are answered with an opaque 500.
    pub fn status_and_message(&self) -> (r: (u16, String))
        ensures
            (r.0, r.1@) == error_answer(*self),
    {
        match self {
            AppError::Auth(m) => (401, m.clone()),
            AppError::Forbidden(m) => (403, m.clone()),
            AppError::NotFound(m) => (404, m.clone()),
            AppError::BadRequest(m) => (400, m.clone()),
            AppError::RateLimit(m) => (429, m.clone()),
            AppError::Conflict(m) => (409, m.clone()),
            AppError::ValidationError(m) => (422, m.clone()),
            AppError::UnexpectedError(_) => (500, "Internal Server Error".to_owned()),
        }
    }

    /// Whether the error must be logged where it is answered.
    pub fn is_unexpected(&self) -> (b: bool)
        ensures
            b == (*self is UnexpectedError),
    {
        match self {
            AppError::UnexpectedError(_) => true,
            _ => false,
        }
    }
}

} // verus!
