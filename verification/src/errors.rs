//! The library's error type.
use vstd::prelude::*;

verus! {

/// Errors the library reports to its callers.
#[derive(Debug, Clone, PartialEq, Eq)]
pub enum AppError {
    /// The caller's input was refused; the message says why.
    Validation(String),
    /// What the caller named does not exist; the message says what.
    NotFound(String),
    /// The database stayed locked past the bounded retries; the message
    /// says where.
    DbBusy(String),
}

impl AppError {
    /// The human-readable message carried by the error.
    pub fn to_message(&self) -> (r: String)
        ensures
            match self {
                AppError::Validation(m) => r@ == m@,
                AppError::NotFound(m) => r@ == m@,
                AppError::DbBusy(m) => r@ == m@,
            },
    {
        match self {
            AppError::Validation(m) => m.clone(),
            AppError::NotFound(m) => m.clone(),
            AppError::DbBusy(m) => m.clone(),
        }
    }
}

} // verus!
