//! The error taxonomy surfaced to HTTP callers, and the mapping from each
//! error to its status code and to the message a caller may see.

use vstd::prelude::*;

verus! {

/// Errors surfaced to callers.  Database and internal failures carry the raw
/// message for server-side logs but are presented generically.
#[derive(Debug)]
pub enum AppError {
    DatabaseError(String),
    NotFound(String),
    Unauthorized(String),
    Forbidden(String),
    BadRequest(String),
    InternalServerError(String),
    Conflict(String),
}

/// The HTTP status code of an error.
pub open spec fn spec_status_code(e: &AppError) -> u16 {
    match e {
        AppError::DatabaseError(_) => 500,
        AppError::NotFound(_) => 404,
        AppError::Unauthorized(_) => 401,
        AppError::Forbidden(_) => 403,
        AppError::BadRequest(_) => 400,
        AppError::InternalServerError(_) => 500,
        AppError::Conflict(_) => 409,
    }
}

/// The message shown to the caller: internal failures are replaced by a
/// generic string, every other error keeps its own message.
pub open spec fn spec_public_message(e: &AppError) -> Seq<char> {
    match e {
        AppError::DatabaseError(_) => "Internal server error"@,
        AppError::InternalServerError(_) => "Internal server error"@,
        AppError::NotFound(m) => m@,
        AppError::Unauthorized(m) => m@,
        AppError::Forbidden(m) => m@,
        AppError::BadRequest(m) => m@,
        AppError::Conflict(m) => m@,
    }
}

impl AppError {
    pub fn status_code(&self) -> (r: u16)
        ensures
            r == spec_status_code(self),
    {
        match self {
            AppError::DatabaseError(_) => 500,
            AppError::NotFound(_) => 404,
            AppError::Unauthorized(_) => 401,
            AppError::Forbidden(_) => 403,
            AppError::BadRequest(_) => 400,
            AppError::InternalServerError(_) => 500,
            AppError::Conflict(_) => 409,
        }
    }

    pub fn public_message(&self) -> (r: String)
        ensures
            r@ == spec_public_message(self),
    {
        match self {
            AppError::DatabaseError(_) => "Internal server error".to_owned(),
            AppError::InternalServerError(_) => "Internal server error".to_owned(),
            AppError::NotFound(m) => m.clone(),
            AppError::Unauthorized(m) => m.clone(),
            AppError::Forbidden(m) => m.clone(),
            AppError::BadRequest(m) => m.clone(),
            AppError::Conflict(m) => m.clone(),
        }
    }
}

} // verus!
