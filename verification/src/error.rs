//! The errors that request handlers answer with.

use vstd::prelude::*;

verus! {

/// Why a request failed. The failures of outside libraries are kept as their
/// messages.
pub enum AppError {
    /// The request body was not the JSON expected: the parser's message.
    InvalidPayload(String),
    /// An internal failure: its message.
    Anyhow(String),
    /// The outside system the route needs is not configured.
    ClientNotAvailable,
    /// The outside system refused or failed the call.
    ExternalServiceError(String),
}

impl AppError {
    /// The HTTP status of the answer: 400 for a bad payload, 500 for an internal
    /// failure, 503 when the client is not configured, 502 when the outside system failed.
    pub fn status_code(&self) -> (s: u16)
        ensures
            s == match *self {
                AppError::InvalidPayload(_) => 400u16,
                AppError::Anyhow(_) => 500u16,
                AppError::ClientNotAvailable => 503u16,
                AppError::ExternalServiceError(_) => 502u16,
            },
    {
        match self {
            AppError::InvalidPayload(_) => 400,
            AppError::Anyhow(_) => 500,
            AppError::ClientNotAvailable => 503,
            AppError::ExternalServiceError(_) => 502,
        }
    }

    /// The body of the answer: the error's message.
    pub fn message(&self) -> (m: String)
        ensures
            m@ == match *self {
                AppError::InvalidPayload(t) => t@,
                AppError::Anyhow(t) => t@,
                AppError::ClientNotAvailable => "Client not available"@,
                AppError::ExternalServiceError(t) => t@,
            },
    {
        match self {
            AppError::InvalidPayload(t) => t.clone(),
            AppError::Anyhow(t) => t.clone(),
            AppError::ClientNotAvailable => "Client not available".to_owned(),
            AppError::ExternalServiceError(t) => t.clone(),
        }
    }
}

} // verus!
