//! Errors reported by the library's decisions.
use vstd::prelude::*;

verus! {

/// Error raised by the library's checks.
#[derive(Debug, Clone, PartialEq, Eq)]
pub enum AppError {
    /// The database pool was used before it was opened.
    NotInitialized,
    /// Any other failure, carrying its message.
    Other(String),
}

impl AppError {
    /// The message of the error, as the application shows it.
    pub fn message(&self) -> (r: String)
        ensures
            r@ == match self {
                AppError::NotInitialized => "Database not initialized"@,
                AppError::Other(m) => m@,
            },
    {
        match self {
            AppError::NotInitialized => "Database not initialized".to_owned(),
            AppError::Other(m) => m.clone(),
        }
    }
}

} // verus!
