//! The failure taxonomy of the protocol. Every error is fatal to the
//! session that raised it and is never retried.

use vstd::prelude::*;

verus! {

/// A fatal session failure.
#[derive(Clone, Copy, Debug, PartialEq, Eq, Structural)]
pub enum ProtoError {
    /// The transport failed while reading or writing.
    IoError,
    /// Bytes were present but are structurally not a message.
    FramingError,
    /// A well-formed message arrived in the wrong handshake stage.
    ProtocolViolation,
    /// A public key or signature could not be decoded.
    CredentialError,
    /// A signature failed verification, or a credential id or username
    /// did not match the one bound earlier in the session.
    AuthenticationError,
    /// The peer closed the connection in the middle of a frame.
    ConnectionReset,
}

impl ProtoError {
    /// The text of the error, for the surrounding program's log.
    pub open spec fn spec_describe(self) -> Seq<char> {
        match self {
            ProtoError::IoError => "transport read or write failed"@,
            ProtoError::FramingError => "buffered bytes are not a valid message"@,
            ProtoError::ProtocolViolation => "message arrived in the wrong handshake stage"@,
            ProtoError::CredentialError => "public key or signature could not be decoded"@,
            ProtoError::AuthenticationError => "authentication failed"@,
            ProtoError::ConnectionReset => "connection reset by peer"@,
        }
    }

    /// The text of the error, for the surrounding program's log.
    pub fn describe(&self) -> (r: &'static str)
        ensures
            r@ == self.spec_describe(),
    {
        match self {
            ProtoError::IoError => "transport read or write failed",
            ProtoError::FramingError => "buffered bytes are not a valid message",
            ProtoError::ProtocolViolation => "message arrived in the wrong handshake stage",
            ProtoError::CredentialError => "public key or signature could not be decoded",
            ProtoError::AuthenticationError => "authentication failed",
            ProtoError::ConnectionReset => "connection reset by peer",
        }
    }
}

} // verus!
