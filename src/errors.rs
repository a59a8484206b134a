//! The failures that the protocol engine reports.
use vstd::prelude::*;

verus! {

#[derive(Debug, Clone, Copy, PartialEq, Eq, Structural)]
pub enum Error {
    /// A pin or port index out of range for the command.
    InvalidArgument,
    /// Bytes that no message grammar accepts.
    UnreadableMessage,
    /// The transport gave no data within the retry budget.
    ReadTimeout,
    /// The transport failed in another way.
    Transport,
    /// An operation on a connection that is closed.
    ConnectionClosed,
    /// The device did not answer within the resynchronisation budget.
    ResyncFailed,
}

impl Error {
    /// A short description of the failure.
    pub fn description(&self) -> &'static str {
        match self {
            Error::InvalidArgument => "Pin or port index out of range",
            Error::UnreadableMessage => "Interrupted or unparseable Firmata message",
            Error::ReadTimeout => "Firmata read timed out",
            Error::Transport => "Firmata stream read or write failed",
            Error::ConnectionClosed => "Serial connection to Firmata device closed",
            Error::ResyncFailed => "Could not resynchronize Firmata connection",
        }
    }
}

} // verus!
