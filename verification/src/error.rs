//! The error type that every fallible operation of the library reports.

use vstd::prelude::*;
use std::sync::PoisonError;

verus! {

/// The kind of an error, which decides the HTTP status the server answers with.
#[derive(Debug, Clone, Copy, PartialEq, Eq, Structural)]
pub enum ErrorKind {
    BadRequest,
    NotFound,
    Internal,
}

/// An error with its kind and a human-readable message.
#[derive(Debug, Clone)]
pub enum AppError {
    BadRequest(String),
    NotFound(String),
    Internal(String),
}

/// A fallible result of the library.
pub type AppResult<T> = Result<T, AppError>;

impl View for AppError {
    type V = (ErrorKind, Seq<char>);

    open spec fn view(&self) -> (ErrorKind, Seq<char>) {
        match self {
            AppError::BadRequest(m) => (ErrorKind::BadRequest, m@),
            AppError::NotFound(m) => (ErrorKind::NotFound, m@),
            AppError::Internal(m) => (ErrorKind::Internal, m@),
        }
    }
}

impl AppError {
    /// The kind of this error.
    pub fn kind(&self) -> (k: ErrorKind)
        ensures
            k == self@.0,
    {
        match self {
            AppError::BadRequest(_) => ErrorKind::BadRequest,
            AppError::NotFound(_) => ErrorKind::NotFound,
            AppError::Internal(_) => ErrorKind::Internal,
        }
    }

    /// The message of this error.
    pub fn message(&self) -> (m: &String)
        ensures
            m@ == self@.1,
    {
        match self {
            AppError::BadRequest(m) => m,
            AppError::NotFound(m) => m,
            AppError::Internal(m) => m,
        }
    }
}

/// Builds an error of the given kind from its message.
pub fn make_error(kind: ErrorKind, message: String) -> (e: AppError)
    ensures
        e@ == (kind, message@),
{
    match kind {
        ErrorKind::BadRequest => AppError::BadRequest(message),
        ErrorKind::NotFound => AppError::NotFound(message),
        ErrorKind::Internal => AppError::Internal(message),
    }
}

/// The view of a unit result: `None` for success, the error's view otherwise.
pub open spec fn fault_of<T>(r: Result<T, AppError>) -> Option<(ErrorKind, Seq<char>)> {
    match r {
        Ok(_) => None,
        Err(e) => Some(e@),
    }
}

#[verifier::external_type_specification]
#[verifier::external_body]
#[verifier::reject_recursive_types(T)]
pub struct ExPoisonError<T>(PoisonError<T>);

/// Turns a poisoned-lock error into an internal error that carries the lock error's text.
pub fn lock_err<T>(e: PoisonError<T>) -> (r: AppError)
    ensures
        r matches AppError::Internal(m) && vstd::string::to_string_from_display_ensures::<
            PoisonError<T>,
        >(&e, m),
{
    AppError::Internal(e.to_string())
}

} // verus!
