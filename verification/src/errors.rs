//! The error taxonomy of the service, with the HTTP status and the short
//! plain-text body that the response layer sends for each failure. No stack
//! trace or internal path ever reaches a client.

use vstd::prelude::*;

verus! {

/// Why a request failed. Underlying failures carry only their rendered text.
pub enum AppError {
    /// No blob exists for the identifier.
    NotFound,
    /// The supplied deletion secret did not match.
    Forbidden,
    /// A file system operation failed.
    IoError(String),
    /// The stored timestamp could not be read as seconds since the epoch.
    SystemTimeError(String),
}

impl AppError {
    /// The HTTP status that reports this error.
    pub open spec fn spec_status(&self) -> u16 {
        match self {
            AppError::NotFound => 404,
            AppError::Forbidden => 403,
            AppError::IoError(_) => 500,
            AppError::SystemTimeError(_) => 500,
        }
    }

    /// The plain-text body that reports this error: a fixed short message
    /// for the request-level failures, and for an underlying failure its own
    /// rendered text alone.
    pub open spec fn spec_message(&self) -> Seq<char> {
        match self {
            AppError::NotFound => "File not found"@,
            AppError::Forbidden => "Permission denied"@,
            AppError::IoError(e) => e@,
            AppError::SystemTimeError(e) => e@,
        }
    }

    pub fn status_code(&self) -> (c: u16)
        ensures
            c == self.spec_status(),
    {
        match self {
            AppError::NotFound => 404,
            AppError::Forbidden => 403,
            AppError::IoError(_) => 500,
            AppError::SystemTimeError(_) => 500,
        }
    }

    pub fn message(&self) -> (m: String)
        ensures
            m@ == self.spec_message(),
    {
        match self {
            AppError::NotFound => String::from_str("File not found"),
            AppError::Forbidden => String::from_str("Permission denied"),
            AppError::IoError(e) => e.clone(),
            AppError::SystemTimeError(e) => e.clone(),
        }
    }
}

} // verus!
