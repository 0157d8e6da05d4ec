use vstd::prelude::*;

use crate::text::joined;

verus! {

/// The class of a failure, which decides how a caller reacts to it.
#[derive(Clone, Copy, Debug, PartialEq, Eq, Structural)]
pub enum ErrorKind {
    Database,
    Validation,
    NotFound,
    BadRequest,
    Internal,
}

/// The result is a failure of the given class.
pub open spec fn fails_with<T>(r: Result<T, AppError>, kind: ErrorKind) -> bool {
    r matches Err(e) && e.kind_spec() == kind
}

/// A classified failure with a message for the caller.
#[derive(Debug)]
pub enum AppError {
    DatabaseError(String),
    ValidationError(String),
    NotFound(String),
    BadRequest(String),
    InternalServerError(String),
}

impl AppError {
    pub open spec fn kind_spec(self) -> ErrorKind {
        match self {
            AppError::DatabaseError(_) => ErrorKind::Database,
            AppError::ValidationError(_) => ErrorKind::Validation,
            AppError::NotFound(_) => ErrorKind::NotFound,
            AppError::BadRequest(_) => ErrorKind::BadRequest,
            AppError::InternalServerError(_) => ErrorKind::Internal,
        }
    }

    pub open spec fn detail_spec(self) -> String {
        match self {
            AppError::DatabaseError(m) => m,
            AppError::ValidationError(m) => m,
            AppError::NotFound(m) => m,
            AppError::BadRequest(m) => m,
            AppError::InternalServerError(m) => m,
        }
    }

    pub fn kind(&self) -> (r: ErrorKind)
        ensures
            r == self.kind_spec(),
    {
        match self {
            AppError::DatabaseError(_) => ErrorKind::Database,
            AppError::ValidationError(_) => ErrorKind::Validation,
            AppError::NotFound(_) => ErrorKind::NotFound,
            AppError::BadRequest(_) => ErrorKind::BadRequest,
            AppError::InternalServerError(_) => ErrorKind::Internal,
        }
    }

    /// The message that the error carries, without its class.
    pub fn detail(&self) -> (r: &String)
        ensures
            *r == self.detail_spec(),
    {
        match self {
            AppError::DatabaseError(m) => m,
            AppError::ValidationError(m) => m,
            AppError::NotFound(m) => m,
            AppError::BadRequest(m) => m,
            AppError::InternalServerError(m) => m,
        }
    }

    /// The HTTP status that reports this error: 400 for bad input, 404 for a
    /// missing resource, 500 for a failure of the store or of the service.
    pub fn status_code(&self) -> (r: u16)
        ensures
            r == (match self.kind_spec() {
                ErrorKind::Validation | ErrorKind::BadRequest => 400u16,
                ErrorKind::NotFound => 404u16,
                ErrorKind::Database | ErrorKind::Internal => 500u16,
            }),
    {
        match self {
            AppError::DatabaseError(_) => 500,
            AppError::ValidationError(_) => 400,
            AppError::NotFound(_) => 404,
            AppError::BadRequest(_) => 400,
            AppError::InternalServerError(_) => 500,
        }
    }

    /// The message with its class in front, as in `Not found: Account not found`.
    pub fn message(&self) -> (r: String)
        ensures
            r@ == (match self {
                AppError::DatabaseError(m) => "Database error: "@ + m@,
                AppError::ValidationError(m) => "Validation error: "@ + m@,
                AppError::NotFound(m) => "Not found: "@ + m@,
                AppError::BadRequest(m) => "Bad request: "@ + m@,
                AppError::InternalServerError(m) => "Internal server error: "@ + m@,
            }),
    {
        match self {
            AppError::DatabaseError(m) => joined("Database error: ", m.as_str()),
            AppError::ValidationError(m) => joined("Validation error: ", m.as_str()),
            AppError::NotFound(m) => joined("Not found: ", m.as_str()),
            AppError::BadRequest(m) => joined("Bad request: ", m.as_str()),
            AppError::InternalServerError(m) => joined("Internal server error: ", m.as_str()),
        }
    }
}

/// A failure of the backing store, with its message.
#[derive(Debug)]
pub struct DatabaseError(pub String);

impl DatabaseError {
    pub fn message(&self) -> (r: String)
        ensures
            r@ == "Database error: "@ + self.0@,
    {
        joined("Database error: ", self.0.as_str())
    }
}

} // verus!
