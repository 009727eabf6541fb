//! The errors that sessions and the session manager report.

use vstd::prelude::*;

verus! {

#[verifier::external_type_specification]
#[verifier::external_body]
pub struct ExIoError(std::io::Error);

/// The terminal error of one session.
#[derive(Debug)]
pub enum SessionError {
    /// Data was offered to a session that is already closed.
    ConnectionReset,
    /// The upstream peer sent more than the output buffer may hold.
    OutputLimitExceeded,
    /// The I/O error that ended the TCP bridge, kept as it was reported.
    Transport(std::io::Error),
}

impl SessionError {
    /// The text of an error that the session raised itself. A transport error
    /// carries its own description and has none here.
    pub fn message(&self) -> (text: Option<&'static str>)
        ensures
            match *self {
                SessionError::ConnectionReset => text matches Some(t) && t@
                    == "connection has been closed"@,
                SessionError::OutputLimitExceeded => text matches Some(t) && t@
                    == "output buffer limit exceeded"@,
                SessionError::Transport(_) => text is None,
            },
    {
        match self {
            SessionError::ConnectionReset => Some("connection has been closed"),
            SessionError::OutputLimitExceeded => Some("output buffer limit exceeded"),
            SessionError::Transport(_) => None,
        }
    }

    /// Whether the TCP bridge reported this error.
    pub fn is_transport(&self) -> (b: bool)
        ensures
            b == (*self is Transport),
    {
        match self {
            SessionError::Transport(_) => true,
            _ => false,
        }
    }
}

/// Why the session manager could not open a session.
#[derive(Clone, Copy, Debug, PartialEq, Eq, Structural)]
pub enum ArrowError {
    /// The service table has no service with this id.
    UnknownService(u16),
    /// The service exists but has no socket address to connect to.
    NoAddress(u16),
}

} // verus!
