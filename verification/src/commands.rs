//! The protocol's message vocabulary: a closed, tagged union shared by
//! both handshake roles, together with its mathematical model.

use crate::signature::Signature;
use crate::SIGNATURE_LEN;
use vstd::prelude::*;

verus! {

/// A protocol message. Frames on the wire are encodings of this type.
#[derive(Clone, Debug, PartialEq)]
pub enum Command {
    /// Client asks to register a new user.
    NewUserBegin { username: String },
    /// Server answers a registration with a fresh challenge to sign.
    CertRequest { server: String, challenge: Vec<u8> },
    /// Client proves possession of a new key over the challenge.
    CertResponse { credential_id: String, signed_challenge: Signature, pub_certificate: Vec<u8> },
    /// Client asks to authenticate as a registered user.
    AuthBegin { username: String },
    /// Server answers an authentication with a fresh challenge to sign.
    ChallengeRequest { credential_id: String, challenge: Vec<u8> },
    /// Client proves possession of the registered key over the challenge.
    ChallengeResponse { signed_challenge: Signature, credential_id: String },
    /// A plain text message, exchanged once each way after authentication.
    TextMessage(String),
    /// Sentinel: the peer closed cleanly with nothing pending.
    NoMessage,
}

/// The mathematical model of a message: every field as a sequence.
pub enum CommandModel {
    NewUserBegin { username: Seq<char> },
    CertRequest { server: Seq<char>, challenge: Seq<u8> },
    CertResponse { credential_id: Seq<char>, signed_challenge: Seq<u8>, pub_certificate: Seq<u8> },
    AuthBegin { username: Seq<char> },
    ChallengeRequest { credential_id: Seq<char>, challenge: Seq<u8> },
    ChallengeResponse { signed_challenge: Seq<u8>, credential_id: Seq<char> },
    TextMessage(Seq<char>),
    NoMessage,
}

impl View for Command {
    type V = CommandModel;

    open spec fn view(&self) -> CommandModel {
        match self {
            Command::NewUserBegin { username } => CommandModel::NewUserBegin {
                username: username@,
            },
            Command::CertRequest { server, challenge } => CommandModel::CertRequest {
                server: server@,
                challenge: challenge@,
            },
            Command::CertResponse {
                credential_id,
                signed_challenge,
                pub_certificate,
            } => CommandModel::CertResponse {
                credential_id: credential_id@,
                signed_challenge: signed_challenge@,
                pub_certificate: pub_certificate@,
            },
            Command::AuthBegin { username } => CommandModel::AuthBegin { username: username@ },
            Command::ChallengeRequest { credential_id, challenge } => {
                CommandModel::ChallengeRequest {
                    credential_id: credential_id@,
                    challenge: challenge@,
                }
            },
            Command::ChallengeResponse { signed_challenge, credential_id } => {
                CommandModel::ChallengeResponse {
                    signed_challenge: signed_challenge@,
                    credential_id: credential_id@,
                }
            },
            Command::TextMessage(text) => CommandModel::TextMessage(text@),
            Command::NoMessage => CommandModel::NoMessage,
        }
    }
}

impl CommandModel {
    /// A model is well formed when its signature fields have the exact
    /// length the scheme defines.
    pub open spec fn wf(self) -> bool {
        match self {
            CommandModel::CertResponse { signed_challenge, .. } => signed_challenge.len()
                == SIGNATURE_LEN,
            CommandModel::ChallengeResponse { signed_challenge, .. } => signed_challenge.len()
                == SIGNATURE_LEN,
            _ => true,
        }
    }
}

impl Command {
    /// A message is well formed when its signature fields have the exact
    /// length the scheme defines.
    pub open spec fn wf(self) -> bool {
        self@.wf()
    }
}

} // verus!
