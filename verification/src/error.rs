//! The error values that the library's operations can return.

use vstd::prelude::*;

verus! {

/// An error returned from one of the library's operations.
///
/// Decode failures of inbound frames are never surfaced through this type:
/// a malformed frame is dropped where it is read, and the session stays up.
#[derive(Clone, Copy, Debug, PartialEq, Eq, Structural)]
pub enum Error {
    /// The handshake or transport failed while connecting to a node; the
    /// node was never registered.
    ConnectionError,
    /// No node could be resolved for the requested operation, either because
    /// the named endpoint is not registered or because the registry is empty.
    NodeNotFound,
    /// A player already existed for the guild when one was to be created.
    PlayerAlreadyExists,
    /// The outbound channel of the bound node refused the frame.
    SendFailure,
}

impl Error {
    /// A short description of the error, in words.
    pub fn message(&self) -> (r: &'static str)
        ensures
            r@ =~= match self {
                Error::ConnectionError => "connecting to the node failed"@,
                Error::NodeNotFound => "no node resolved for the operation"@,
                Error::PlayerAlreadyExists => "A player for that guild already exists"@,
                Error::SendFailure => "the outbound channel refused the frame"@,
            },
    {
        match self {
            Error::ConnectionError => "connecting to the node failed",
            Error::NodeNotFound => "no node resolved for the operation",
            Error::PlayerAlreadyExists => "A player for that guild already exists",
            Error::SendFailure => "the outbound channel refused the frame",
        }
    }
}

} // verus!
