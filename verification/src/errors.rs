use vstd::prelude::*;

verus! {

/// Application-level failures. Every fault of the services is mapped to
/// exactly one of these kinds, and each kind maps to a fixed HTTP status,
/// so nothing below the service boundary leaks to a client.
#[derive(Debug)]
pub enum AppError {
    /// An unexpected fault of the store or of a cryptographic routine (500).
    InternalServerError(String),
    /// A uniqueness violation: the username or transaction id already exists (409).
    Conflict(String),
    /// Bad credentials or an invalid or expired token (401).
    Unauthorized(String),
}

impl AppError {
    /// The HTTP status code that this error kind maps to.
    pub open spec fn spec_status_code(&self) -> u16 {
        match self {
            AppError::InternalServerError(_) => 500,
            AppError::Conflict(_) => 409,
            AppError::Unauthorized(_) => 401,
        }
    }

    /// The human-readable message carried by this error.
    pub open spec fn spec_message(&self) -> Seq<char> {
        match self {
            AppError::InternalServerError(m) => m@,
            AppError::Conflict(m) => m@,
            AppError::Unauthorized(m) => m@,
        }
    }

    /// Exhaustive mapping of error kinds to HTTP status codes.
    pub fn status_code(&self) -> (code: u16)
        ensures
            code == self.spec_status_code(),
    {
        match self {
            AppError::InternalServerError(_) => 500,
            AppError::Conflict(_) => 409,
            AppError::Unauthorized(_) => 401,
        }
    }

    /// The message that the HTTP layer places in the response body.
    pub fn message(&self) -> (m: &String)
        ensures
            m@ == self.spec_message(),
    {
        match self {
            AppError::InternalServerError(m) => m,
            AppError::Conflict(m) => m,
            AppError::Unauthorized(m) => m,
        }
    }
}

} // verus!
