//! The ways in which a run can fail.

use vstd::prelude::*;
use vstd::string::StringExecFns;

verus! {

/// Why a run ended without a completed handshake. Each failure is terminal:
/// nothing is retried.
#[derive(Clone, Debug, PartialEq, Eq)]
pub enum ConnectionError {
    /// The transport refused the connection or could not reach the peer; the
    /// text is the transport's own account of the cause.
    ConnectionFailed(String),
    /// The attempt to connect outlasted the time allowed for it.
    ConnectionTimedOut,
    /// The stream ended, or delivered bytes that are no message, before the
    /// peer's `version` arrived.
    ConnectionLost,
    /// A `version` or `verack` could not be written; the text is the
    /// transport's own account of the cause.
    SendingFailed(String),
    /// The remote address is no IPv4 socket address.
    InvalidAddress,
}

impl ConnectionError {
    /// The text that belongs to each failure. A failed connection is
    /// followed by its cause.
    pub open spec fn message_of(e: ConnectionError) -> Seq<char> {
        match e {
            ConnectionError::ConnectionFailed(cause) => "Connection failed: "@ + cause@,
            ConnectionError::ConnectionTimedOut => "Connection timed out"@,
            ConnectionError::ConnectionLost => "Connection lost"@,
            ConnectionError::SendingFailed(_) => "Sending failed"@,
            ConnectionError::InvalidAddress => "Invalid address provided"@,
        }
    }

    /// The text shown to the operator for this failure.
    pub fn message(&self) -> (text: String)
        ensures
            text@ == Self::message_of(*self),
    {
        match self {
            ConnectionError::ConnectionFailed(cause) => {
                let mut text = String::from_str("Connection failed: ");
                text.append(cause.as_str());
                text
            },
            ConnectionError::ConnectionTimedOut => String::from_str("Connection timed out"),
            ConnectionError::ConnectionLost => String::from_str("Connection lost"),
            ConnectionError::SendingFailed(_) => String::from_str("Sending failed"),
            ConnectionError::InvalidAddress => String::from_str("Invalid address provided"),
        }
    }
}

} // verus!
