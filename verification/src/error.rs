//! The service's error type: what each failure is answered with.

use vstd::prelude::*;
use crate::text::joined;

verus! {

/// Every way a request can fail. The payload of a variant is the detail
/// shown after its fixed prefix in the message.
#[derive(Debug, Clone, PartialEq, Eq)]
pub enum AppError {
    UserAlreadyExists,
    InvalidCredentials,
    ValidationError(String),
    /// A failure of the database driver, carried as the driver's own message.
    DatabaseError(String),
    HashingError(String),
    TokenError(String),
    Unauthorized(String),
    NotFound(String),
    Forbidden(String),
}

/// The mathematical content of an `AppError`: its variant and detail text.
pub enum AppErrorView {
    UserAlreadyExists,
    InvalidCredentials,
    ValidationError(Seq<char>),
    DatabaseError(Seq<char>),
    HashingError(Seq<char>),
    TokenError(Seq<char>),
    Unauthorized(Seq<char>),
    NotFound(Seq<char>),
    Forbidden(Seq<char>),
}

impl View for AppError {
    type V = AppErrorView;

    open spec fn view(&self) -> AppErrorView {
        match self {
            AppError::UserAlreadyExists => AppErrorView::UserAlreadyExists,
            AppError::InvalidCredentials => AppErrorView::InvalidCredentials,
            AppError::ValidationError(d) => AppErrorView::ValidationError(d@),
            AppError::DatabaseError(d) => AppErrorView::DatabaseError(d@),
            AppError::HashingError(d) => AppErrorView::HashingError(d@),
            AppError::TokenError(d) => AppErrorView::TokenError(d@),
            AppError::Unauthorized(d) => AppErrorView::Unauthorized(d@),
            AppError::NotFound(d) => AppErrorView::NotFound(d@),
            AppError::Forbidden(d) => AppErrorView::Forbidden(d@),
        }
    }
}

/// The HTTP status code each error is answered with.
pub open spec fn status_of(e: AppError) -> u16 {
    match e {
        AppError::UserAlreadyExists => 409,
        AppError::InvalidCredentials => 401,
        AppError::ValidationError(_) => 422,
        AppError::DatabaseError(_) => 500,
        AppError::HashingError(_) => 500,
        AppError::TokenError(_) => 500,
        AppError::Unauthorized(_) => 401,
        AppError::NotFound(_) => 404,
        AppError::Forbidden(_) => 403,
    }
}

/// The human-readable message of each error.
pub open spec fn message_of(e: AppError) -> Seq<char> {
    match e {
        AppError::UserAlreadyExists => "User already exists"@,
        AppError::InvalidCredentials => "Invalid credentials"@,
        AppError::ValidationError(d) => "Validation error: "@ + d@,
        AppError::DatabaseError(d) => "Database error: "@ + d@,
        AppError::HashingError(d) => "Hashing error: "@ + d@,
        AppError::TokenError(d) => "Token error: "@ + d@,
        AppError::Unauthorized(d) => "Unauthorized: "@ + d@,
        AppError::NotFound(d) => "Not found: "@ + d@,
        AppError::Forbidden(d) => "Forbidden: "@ + d@,
    }
}

impl AppError {
    /// The HTTP status code of the response that reports this error.
    pub fn status_code(&self) -> (code: u16)
        ensures
            code == status_of(*self),
    {
        match self {
            AppError::UserAlreadyExists => 409,
            AppError::InvalidCredentials => 401,
            AppError::ValidationError(_) => 422,
            AppError::DatabaseError(_) => 500,
            AppError::HashingError(_) => 500,
            AppError::TokenError(_) => 500,
            AppError::Unauthorized(_) => 401,
            AppError::NotFound(_) => 404,
            AppError::Forbidden(_) => 403,
        }
    }

    /// The text placed under `"error"` in the JSON body of the response.
    pub fn message(&self) -> (m: String)
        ensures
            m@ == message_of(*self),
    {
        match self {
            AppError::UserAlreadyExists => "User already exists".to_owned(),
            AppError::InvalidCredentials => "Invalid credentials".to_owned(),
            AppError::ValidationError(d) => joined("Validation error: ", d.as_str()),
            AppError::DatabaseError(d) => joined("Database error: ", d.as_str()),
            AppError::HashingError(d) => joined("Hashing error: ", d.as_str()),
            AppError::TokenError(d) => joined("Token error: ", d.as_str()),
            AppError::Unauthorized(d) => joined("Unauthorized: ", d.as_str()),
            AppError::NotFound(d) => joined("Not found: ", d.as_str()),
            AppError::Forbidden(d) => joined("Forbidden: ", d.as_str()),
        }
    }
}

/// The value when it was found; otherwise a validation error with the
/// given text (the service answers a missing row with that error).
pub fn found_or_invalid<T>(found: Option<T>, message: &str) -> (r: Result<T, AppError>)
    ensures
        match found {
            Some(v) => r matches Ok(w) && w == v,
            None => r matches Err(e) && e@ == AppErrorView::ValidationError(message@),
        },
{
    match found {
        Some(v) => Ok(v),
        None => Err(AppError::ValidationError(message.to_owned())),
    }
}

/// Success when `holds`; otherwise a validation error with the given text.
pub fn ensure_or_invalid(holds: bool, message: &str) -> (r: Result<(), AppError>)
    ensures
        r is Ok <==> holds,
        r matches Err(e) ==> e@ == AppErrorView::ValidationError(message@),
{
    if holds {
        Ok(())
    } else {
        Err(AppError::ValidationError(message.to_owned()))
    }
}

} // verus!
