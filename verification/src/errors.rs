use vstd::prelude::*;

verus! {

/// The error taxonomy of the service layer.
///
/// Each variant carries the message shown to the caller; the HTTP status
/// a front end should map it to is given by [`AppError::status_code`].
#[derive(Debug, PartialEq, Eq)]
pub enum AppError {
    /// The underlying store failed (mapped to 500).
    DatabaseError(String),
    /// The requested entity does not exist (mapped to 404).
    NotFoundError(String),
    /// No valid identity accompanies the request (mapped to 401).
    UnauthorizedError(String),
    /// The identity is valid but lacks the required role or ownership
    /// (mapped to 403).
    ForbiddenError(String),
    /// An input violates a shape or bounds rule (mapped to 400).
    ValidationError(String),
    /// The requested username is already registered (mapped to 400).
    UsernameTakenError(String),
    /// Login was refused; deliberately silent on whether the username
    /// exists (mapped to 401).
    InvalidCredentialsError(String),
}

impl AppError {
    /// The HTTP status code this error maps to.
    pub fn status_code(&self) -> (code: u16)
        ensures
            code == self.spec_status_code(),
    {
        match self {
            AppError::DatabaseError(_) => 500,
            AppError::NotFoundError(_) => 404,
            AppError::UnauthorizedError(_) => 401,
            AppError::ForbiddenError(_) => 403,
            AppError::ValidationError(_) => 400,
            AppError::UsernameTakenError(_) => 400,
            AppError::InvalidCredentialsError(_) => 401,
        }
    }

    pub open spec fn spec_status_code(&self) -> u16 {
        match self {
            AppError::DatabaseError(_) => 500u16,
            AppError::NotFoundError(_) => 404u16,
            AppError::UnauthorizedError(_) => 401u16,
            AppError::ForbiddenError(_) => 403u16,
            AppError::ValidationError(_) => 400u16,
            AppError::UsernameTakenError(_) => 400u16,
            AppError::InvalidCredentialsError(_) => 401u16,
        }
    }

    /// The message carried by the error.
    pub fn message(&self) -> (msg: &String)
        ensures
            msg@ == self.spec_message(),
    {
        match self {
            AppError::DatabaseError(m) => m,
            AppError::NotFoundError(m) => m,
            AppError::UnauthorizedError(m) => m,
            AppError::ForbiddenError(m) => m,
            AppError::ValidationError(m) => m,
            AppError::UsernameTakenError(m) => m,
            AppError::InvalidCredentialsError(m) => m,
        }
    }

    /// Everything a caller can observe of an error: the status code it
    /// maps to and the message it carries.
    pub open spec fn spec_observation(&self) -> (u16, Seq<char>) {
        (self.spec_status_code(), self.spec_message())
    }

    pub open spec fn spec_message(&self) -> Seq<char> {
        match self {
            AppError::DatabaseError(m) => m@,
            AppError::NotFoundError(m) => m@,
            AppError::UnauthorizedError(m) => m@,
            AppError::ForbiddenError(m) => m@,
            AppError::ValidationError(m) => m@,
            AppError::UsernameTakenError(m) => m@,
            AppError::InvalidCredentialsError(m) => m@,
        }
    }
}

} // verus!
