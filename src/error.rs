//! The error taxonomy shared by every component.

use vstd::prelude::*;

verus! {

/// What can go wrong when serving a request.
#[derive(Debug, Clone, Copy, PartialEq, Eq, Structural)]
pub enum AppError {
    /// A looked-up record does not exist.
    NotFound,
    /// A uniqueness rule would be broken (email, username, slug).
    DuplicateConstraint,
    /// The password does not match the stored hash.
    InvalidCredentials,
    /// A missing, malformed, badly signed or expired token.
    Unauthorized,
    /// Malformed input.
    ValidationError,
    /// The store or an infrastructure service failed.
    StoreUnavailable,
}

impl AppError {
    /// The HTTP status that renders this error.
    pub fn status_code(&self) -> (r: u16)
        ensures
            r == match *self {
                AppError::NotFound => 404u16,
                AppError::DuplicateConstraint => 409u16,
                AppError::InvalidCredentials => 401u16,
                AppError::Unauthorized => 401u16,
                AppError::ValidationError => 422u16,
                AppError::StoreUnavailable => 503u16,
            },
    {
        match self {
            AppError::NotFound => 404,
            AppError::DuplicateConstraint => 409,
            AppError::InvalidCredentials => 401,
            AppError::Unauthorized => 401,
            AppError::ValidationError => 422,
            AppError::StoreUnavailable => 503,
        }
    }

    /// The message an error response carries.
    pub fn message(&self) -> (r: &'static str)
        ensures
            r@ == match *self {
                AppError::NotFound => "not found"@,
                AppError::DuplicateConstraint => "already taken"@,
                AppError::InvalidCredentials => "invalid email or password"@,
                AppError::Unauthorized => "Unauthorized"@,
                AppError::ValidationError => "invalid input"@,
                AppError::StoreUnavailable => "service unavailable"@,
            },
    {
        match self {
            AppError::NotFound => "not found",
            AppError::DuplicateConstraint => "already taken",
            AppError::InvalidCredentials => "invalid email or password",
            AppError::Unauthorized => "Unauthorized",
            AppError::ValidationError => "invalid input",
            AppError::StoreUnavailable => "service unavailable",
        }
    }

    /// The error a signin answers with: an unknown email answers as a
    /// wrong password does, so that registered emails cannot be probed.
    pub fn for_signin(self) -> (r: AppError)
        ensures
            r == if self == AppError::NotFound {
                AppError::InvalidCredentials
            } else {
                self
            },
    {
        match self {
            AppError::NotFound => AppError::InvalidCredentials,
            other => other,
        }
    }
}

} // verus!
