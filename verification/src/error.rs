//! The unified error type: operations return it with a short human context
//! string; callers log and discard, and no error crosses a task boundary as
//! a panic.

use vstd::prelude::*;

verus! {

/// A failed operation: missing authorization, a database failure, or an
/// unexpected internal failure, each with its context.
#[derive(Debug)]
pub enum AppError {
    Unauthorized,
    Database(String),
    Internal(String),
}

impl AppError {
    /// Wrap a database failure under its context string.
    pub fn db(context: &str) -> (r: AppError)
        ensures
            r matches AppError::Database(s) && s@ == context@,
    {
        AppError::Database(String::from_str(context))
    }

    /// Wrap an unexpected failure under its context string.
    pub fn internal(context: &str) -> (r: AppError)
        ensures
            r matches AppError::Internal(s) && s@ == context@,
    {
        AppError::Internal(String::from_str(context))
    }

    /// A short name for the error's kind, for logs.
    pub fn kind(&self) -> (r: &'static str)
        ensures
            *self is Unauthorized ==> r@ == "unauthorized"@,
            *self is Database ==> r@ == "database"@,
            *self is Internal ==> r@ == "internal"@,
    {
        match self {
            AppError::Unauthorized => "unauthorized",
            AppError::Database(_) => "database",
            AppError::Internal(_) => "internal",
        }
    }
}

} // verus!
