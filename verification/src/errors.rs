//! Error taxonomy shared by every component of the engine.
//!
//! Connection and authentication failures are fatal for the transport that
//! raised them; channel and flow-control failures are recoverable and the
//! caller may retry after re-checking state.

use vstd::prelude::*;

verus! {

/// Typed error carrying a human-readable description.
#[derive(Debug, Clone, PartialEq, Eq)]
pub enum LovelyResError {
    SSHError(String),
    DockerError(String),
    FileError(String),
    ConfigError(String),
    NetworkError(String),
    AuthError(String),
    ConnectionError(String),
    AuthenticationError(String),
    PermissionError(String),
    NotFound(String),
    InvalidInput(String),
    Unknown(String),
}

impl LovelyResError {
    /// The description the error was built with.
    pub open spec fn spec_message(&self) -> Seq<char> {
        match self {
            LovelyResError::SSHError(m) => m@,
            LovelyResError::DockerError(m) => m@,
            LovelyResError::FileError(m) => m@,
            LovelyResError::ConfigError(m) => m@,
            LovelyResError::NetworkError(m) => m@,
            LovelyResError::AuthError(m) => m@,
            LovelyResError::ConnectionError(m) => m@,
            LovelyResError::AuthenticationError(m) => m@,
            LovelyResError::PermissionError(m) => m@,
            LovelyResError::NotFound(m) => m@,
            LovelyResError::InvalidInput(m) => m@,
            LovelyResError::Unknown(m) => m@,
        }
    }

    /// Returns the description; the caller formats it for display.
    pub fn message(&self) -> (r: String)
        ensures
            r@ == self.spec_message(),
    {
        match self {
            LovelyResError::SSHError(m) => m.clone(),
            LovelyResError::DockerError(m) => m.clone(),
            LovelyResError::FileError(m) => m.clone(),
            LovelyResError::ConfigError(m) => m.clone(),
            LovelyResError::NetworkError(m) => m.clone(),
            LovelyResError::AuthError(m) => m.clone(),
            LovelyResError::ConnectionError(m) => m.clone(),
            LovelyResError::AuthenticationError(m) => m.clone(),
            LovelyResError::PermissionError(m) => m.clone(),
            LovelyResError::NotFound(m) => m.clone(),
            LovelyResError::InvalidInput(m) => m.clone(),
            LovelyResError::Unknown(m) => m.clone(),
        }
    }
}

/// Result alias used throughout the crate.
pub type LovelyResResult<T> = Result<T, LovelyResError>;

} // verus!
