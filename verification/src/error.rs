//! The error type shared by the tunnel's layers.

use vstd::prelude::*;

verus! {

/// What went wrong, with a message for the operator.
#[derive(Debug, Clone, PartialEq, Eq)]
pub enum TunnelError {
    /// A configuration value is missing or out of range.
    Config(String),
    /// The peer broke the wire protocol.
    Protocol(String),
    /// A connection could not be made or was lost.
    Connection(String),
    /// An operation did not finish in time.
    Timeout(String),
    /// The peer's credentials were refused.
    Authentication(String),
    /// A service that was asked for is not available.
    ServiceUnavailable(String),
    /// An operation was called in a state that does not allow it.
    InvalidState(String),
    /// TLS material is missing or was refused.
    Tls(String),
    /// Reading or writing failed.
    Io(String),
}

impl TunnelError {
    /// The message that the error carries.
    pub open spec fn text(self) -> Seq<char> {
        match self {
            TunnelError::Config(m) => m@,
            TunnelError::Protocol(m) => m@,
            TunnelError::Connection(m) => m@,
            TunnelError::Timeout(m) => m@,
            TunnelError::Authentication(m) => m@,
            TunnelError::ServiceUnavailable(m) => m@,
            TunnelError::InvalidState(m) => m@,
            TunnelError::Tls(m) => m@,
            TunnelError::Io(m) => m@,
        }
    }

    /// The message that the error carries.
    pub fn message(&self) -> (r: String)
        ensures
            r@ == self.text(),
    {
        match self {
            TunnelError::Config(m) => m.clone(),
            TunnelError::Protocol(m) => m.clone(),
            TunnelError::Connection(m) => m.clone(),
            TunnelError::Timeout(m) => m.clone(),
            TunnelError::Authentication(m) => m.clone(),
            TunnelError::ServiceUnavailable(m) => m.clone(),
            TunnelError::InvalidState(m) => m.clone(),
            TunnelError::Tls(m) => m.clone(),
            TunnelError::Io(m) => m.clone(),
        }
    }
}

/// The message of an error is the one that it was made with, whatever its kind.
pub proof fn law_errors_keep_their_message(words: String, error: &TunnelError, r: String)
    requires
        call_ensures(TunnelError::message, (error,), r),
        *error == TunnelError::Config(words) || *error == TunnelError::Protocol(words) || *error
            == TunnelError::Connection(words) || *error == TunnelError::Timeout(words) || *error
            == TunnelError::Authentication(words) || *error == TunnelError::ServiceUnavailable(
            words,
        ) || *error == TunnelError::InvalidState(words) || *error == TunnelError::Tls(words)
            || *error == TunnelError::Io(words),
    ensures
        r@ == words@,
{
}

} // verus!
