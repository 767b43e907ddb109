//! Error taxonomy of the engine.

use vstd::prelude::*;

verus! {

/// The class of a failure, as far as retry and reporting are concerned.
#[derive(Clone, Copy, Debug, PartialEq, Eq, Structural)]
pub enum ErrorKind {
    /// Bad URL, invalid path, contradictory flags.
    Validate,
    /// DNS, TCP or TLS failure before response headers.
    NetworkConnect,
    /// The per-request timer fired.
    NetworkTimeout,
    /// A final response outside 2xx, with its status code.
    NetworkStatus(u16),
    /// A stream error after the headers had arrived.
    NetworkBody,
    /// Any other transport failure: a malformed redirect, a request that
    /// could not be built.
    Network,
    /// A filesystem error.
    Storage,
    /// A malformed header, journal or configuration value.
    Parse,
    /// The user asked to stop.
    Cancelled,
    /// Anything else.
    Other,
}

/// An error of the engine, with a message for the user.
#[derive(Debug)]
pub enum DomainError {
    ValidateError(String),
    NetworkError(String),
    NetworkConnectError(String),
    NetworkTimeoutError(String),
    /// A final response outside 2xx, with its status code.
    NetworkStatusError(u16, String),
    /// A stream error after the headers had arrived.
    NetworkBodyError(String),
    StorageError(String),
    ParseError(String),
    Cancelled,
    Other { message: String },
}

impl DomainError {
    /// The class this error falls in.
    pub open spec fn spec_kind(&self) -> ErrorKind {
        match self {
            DomainError::ValidateError(_) => ErrorKind::Validate,
            DomainError::NetworkError(_) => ErrorKind::Network,
            DomainError::NetworkConnectError(_) => ErrorKind::NetworkConnect,
            DomainError::NetworkTimeoutError(_) => ErrorKind::NetworkTimeout,
            DomainError::NetworkStatusError(code, _) => ErrorKind::NetworkStatus(*code),
            DomainError::NetworkBodyError(_) => ErrorKind::NetworkBody,
            DomainError::StorageError(_) => ErrorKind::Storage,
            DomainError::ParseError(_) => ErrorKind::Parse,
            DomainError::Cancelled => ErrorKind::Cancelled,
            DomainError::Other { .. } => ErrorKind::Other,
        }
    }

    /// The class this error falls in.
    #[verifier::when_used_as_spec(spec_kind)]
    pub fn kind(&self) -> (k: ErrorKind)
        ensures
            k == self.spec_kind(),
    {
        match self {
            DomainError::ValidateError(_) => ErrorKind::Validate,
            DomainError::NetworkError(_) => ErrorKind::Network,
            DomainError::NetworkConnectError(_) => ErrorKind::NetworkConnect,
            DomainError::NetworkTimeoutError(_) => ErrorKind::NetworkTimeout,
            DomainError::NetworkStatusError(code, _) => ErrorKind::NetworkStatus(*code),
            DomainError::NetworkBodyError(_) => ErrorKind::NetworkBody,
            DomainError::StorageError(_) => ErrorKind::Storage,
            DomainError::ParseError(_) => ErrorKind::Parse,
            DomainError::Cancelled => ErrorKind::Cancelled,
            DomainError::Other { .. } => ErrorKind::Other,
        }
    }
}

} // verus!
