use vstd::prelude::*;

verus! {

/// A common error type for the HTTP layer: what a handler hands back when it fails.
///
/// The detail string is logged, never sent verbatim to the client.
#[derive(Debug)]
pub enum AppError {
    /// Malformed input.
    Validation(String),
    /// No credential, or one that does not verify.
    Authorization(String),
    /// A backend failure or a broken invariant.
    Unexpected(String),
}

/// The status code that a response carrying this error gets.
pub open spec fn status_of(e: &AppError) -> u16 {
    match e {
        AppError::Validation(_) => 400,
        AppError::Authorization(_) => 401,
        AppError::Unexpected(_) => 500,
    }
}

impl AppError {
    pub fn status_code(&self) -> (r: u16)
        ensures
            r == status_of(self),
    {
        match self {
            AppError::Validation(_) => 400,
            AppError::Authorization(_) => 401,
            AppError::Unexpected(_) => 500,
        }
    }
}

/// The JSON body of an unexpected-error response.
pub struct Error {
    pub code: u16,
    pub message: String,
    pub details: Option<Vec<ErrorDetails>>,
}

/// One field-level detail of an error response.
pub struct ErrorDetails {
    pub field: String,
    pub message: String,
}

} // verus!
