//! The handshake state machines, one per role. Each session is owned by
//! one connection's worker and driven by `step`: the worker feeds it every
//! message decoded from the transport and sends back the replies. Stage
//! transitions are strictly linear; a message of the wrong variant for the
//! current stage is a `ProtocolViolation` and ends the session, as does
//! any failed credential or signature check. `NoMessage` is deliberately
//! a clean close in every stage, whether the decoder produced it at end
//! of stream or the peer sent its frame: a graceful close is not an
//! error.

use crate::commands::Command;
use crate::errors::ProtoError;
use crate::signature::key_valid;
use crate::signature::make_new_key;
use crate::signature::new_challenge;
use crate::signature::new_key_id;
use crate::signature::sig_bytes_of;
use crate::signature::sig_valid;
use crate::signature::sign_challenge;
use crate::signature::vk_of;
use crate::signature::SigningKey;
use crate::signature::VerifyingKey;
use crate::signature::decode_public_key;
use crate::signature::encode_public_key;
use crate::signature::validate_signature;
use crate::CHALLENGE_LEN;
use crate::PUBLIC_KEY_LEN;
use vstd::prelude::*;
use vstd::slice::slice_to_vec;
use vstd::string::StringExecFns;

verus! {

/// What one step of a session asks its worker to do next.
#[derive(Debug, PartialEq)]
pub enum Progress {
    /// Send these messages, then wait for the peer's next message.
    Replies(Vec<Command>),
    /// Send these messages, surface the peer's final text: session over.
    Finished(Vec<Command>, String),
    /// The peer closed cleanly: session over, nothing to send.
    Closed,
}

/// The client's position in its handshake sequence.
#[derive(Clone, Copy, Debug, PartialEq, Eq, Structural)]
pub enum ClientStage {
    /// Nothing sent yet.
    Idle,
    /// `NewUserBegin` sent; a `CertRequest` is owed.
    RegistrationRequested,
    /// Key registered and `AuthBegin` sent; a `ChallengeRequest` is owed.
    AuthRequested,
    /// `ChallengeResponse` sent; the server's text is owed.
    Authenticated,
    /// The session ended normally.
    Done,
    /// The session ended with an error.
    Failed,
}

/// The server's position in its handshake sequence.
#[derive(Clone, Copy, Debug, PartialEq, Eq, Structural)]
pub enum ServerStage {
    /// Nothing received yet; a `NewUserBegin` is owed.
    AwaitingRegistration,
    /// Challenge issued; a `CertResponse` is owed.
    AwaitingCertResponse,
    /// Key bound; an `AuthBegin` is owed.
    AwaitingAuthBegin,
    /// Challenge issued; a `ChallengeResponse` is owed.
    AwaitingChallengeResponse,
    /// Greeting sent; the client's text is owed.
    Authenticated,
    /// The session ended normally.
    Done,
    /// The session ended with an error.
    Failed,
}

/// The text a client sends once it is authenticated.
pub open spec fn client_greeting(name: Seq<char>) -> Seq<char> {
    "Hello from ["@ + name + "]"@
}

/// The text a server sends once its peer is authenticated.
pub open spec fn server_greeting(name: Seq<char>) -> Seq<char> {
    "Hello ["@ + name + "] from server"@
}

fn make_client_greeting(name: &String) -> (r: String)
    ensures
        r@ == client_greeting(name@),
{
    let mut text = String::from_str("Hello from [");
    text.append(name.as_str());
    text.append("]");
    text
}

fn make_server_greeting(name: &String) -> (r: String)
    ensures
        r@ == server_greeting(name@),
{
    let mut text = String::from_str("Hello [");
    text.append(name.as_str());
    text.append("] from server");
    text
}

/// One connection's client-side session: the username being registered,
/// the generated private key, and the credential id the key was
/// registered under.
pub struct ClientSession {
    pub username: String,
    pub stage: ClientStage,
    pub key: Option<SigningKey>,
    pub key_id: Option<String>,
}

impl ClientSession {
    /// What every reachable client session satisfies: from the moment a
    /// key is owed, the key and its credential id are present.
    pub open spec fn wf(self) -> bool {
        self.stage is AuthRequested ==> (self.key matches Some(k) && k.wf()) && self.key_id
            is Some
    }

    /// A fresh client session for one connection.
    pub fn new(username: String) -> (r: Self)
        ensures
            r.wf(),
            r.stage is Idle,
            r.username@ == username@,
            r.key is None,
            r.key_id is None,
    {
        ClientSession { username, stage: ClientStage::Idle, key: None, key_id: None }
    }

    /// Opens the handshake: the registration request to send first.
    pub fn start(&mut self) -> (msg: Command)
        requires
            old(self).wf(),
            old(self).stage is Idle,
        ensures
            final(self).wf(),
            final(self).stage is RegistrationRequested,
            (msg matches Command::NewUserBegin { username } && username@ == old(self).username@),
            final(self).username == old(self).username,
            final(self).key == old(self).key,
            final(self).key_id == old(self).key_id,
    {
        self.stage = ClientStage::RegistrationRequested;
        Command::NewUserBegin { username: self.username.clone() }
    }

    /// Feeds one received message to the client machine.
    pub fn step(&mut self, msg: Command) -> (r: Result<Progress, ProtoError>)
        requires
            old(self).wf(),
        ensures
            final(self).wf(),
            client_step_rel(*old(self), msg, *final(self), r),
    {
        match msg {
            Command::NoMessage => {
                self.stage = ClientStage::Done;
                Ok(Progress::Closed)
            },
            Command::CertRequest { server: _, challenge } => {
                if !(self.stage == ClientStage::RegistrationRequested) {
                    self.stage = ClientStage::Failed;
                    return Err(ProtoError::ProtocolViolation);
                }
                let key = make_new_key();
                let public_key = key.verifying_key();
                let signed = sign_challenge(&key, challenge.as_slice());
                let key_id = new_key_id().to_string();
                let cert_response = Command::CertResponse {
                    credential_id: key_id.clone(),
                    signed_challenge: signed,
                    pub_certificate: encode_public_key(&public_key),
                };
                let auth_begin = Command::AuthBegin { username: self.username.clone() };
                self.key = Some(key);
                self.key_id = Some(key_id);
                self.stage = ClientStage::AuthRequested;
                let mut out: Vec<Command> = Vec::new();
                out.push(cert_response);
                out.push(auth_begin);
                Ok(Progress::Replies(out))
            },
            Command::ChallengeRequest { credential_id, challenge } => {
                if !(self.stage == ClientStage::AuthRequested) {
                    self.stage = ClientStage::Failed;
                    return Err(ProtoError::ProtocolViolation);
                }
                let kid = self.key_id.as_ref().unwrap();
                if !(credential_id == *kid) {
                    self.stage = ClientStage::Failed;
                    return Err(ProtoError::AuthenticationError);
                }
                let key = self.key.as_ref().unwrap();
                let signed = sign_challenge(key, challenge.as_slice());
                let response = Command::ChallengeResponse {
                    signed_challenge: signed,
                    credential_id,
                };
                self.stage = ClientStage::Authenticated;
                let mut out: Vec<Command> = Vec::new();
                out.push(response);
                Ok(Progress::Replies(out))
            },
            Command::TextMessage(line) => {
                if !(self.stage == ClientStage::Authenticated) {
                    self.stage = ClientStage::Failed;
                    return Err(ProtoError::ProtocolViolation);
                }
                let greeting = make_client_greeting(&self.username);
                self.stage = ClientStage::Done;
                let mut out: Vec<Command> = Vec::new();
                out.push(Command::TextMessage(greeting));
                Ok(Progress::Finished(out, line))
            },
            _ => {
                self.stage = ClientStage::Failed;
                Err(ProtoError::ProtocolViolation)
            },
        }
    }
}

/// The session failed: only the stage changes.
pub open spec fn client_failed(
    pre: ClientSession,
    post: ClientSession,
    r: Result<Progress, ProtoError>,
    e: ProtoError,
) -> bool {
    &&& post == ClientSession { stage: ClientStage::Failed, ..pre }
    &&& (r matches Err(a) && a == e)
}

/// A message of the wrong variant for the stage: fatal.
pub open spec fn client_violation(
    pre: ClientSession,
    post: ClientSession,
    r: Result<Progress, ProtoError>,
) -> bool {
    client_failed(pre, post, r, ProtoError::ProtocolViolation)
}

/// The complete transition relation of the client machine: for every
/// stage and every received message, what the step returns and how the
/// session changes.
pub open spec fn client_step_rel(
    pre: ClientSession,
    msg: Command,
    post: ClientSession,
    r: Result<Progress, ProtoError>,
) -> bool {
    match msg {
        Command::NoMessage => {
            &&& post == ClientSession { stage: ClientStage::Done, ..pre }
            &&& (r matches Ok(p) && p is Closed)
        },
        Command::CertRequest { server: _, challenge } => {
            if !(pre.stage is RegistrationRequested) {
                client_violation(pre, post, r)
            } else {
                &&& post.stage is AuthRequested
                &&& post.username == pre.username
                &&& (post.key matches Some(k) && k.wf())
                &&& post.key_id is Some
                &&& key_valid(vk_of(post.key.unwrap()@))
                &&& vk_of(post.key.unwrap()@).len() == PUBLIC_KEY_LEN
                &&& sig_valid(
                    vk_of(post.key.unwrap()@),
                    challenge@,
                    sig_bytes_of(post.key.unwrap()@, challenge@),
                )
                &&& (r matches Ok(p) && p matches Progress::Replies(out) && out@.len() == 2 && (
                out@[0] matches Command::CertResponse {
                    credential_id,
                    signed_challenge,
                    pub_certificate,
                } && credential_id@ == post.key_id.unwrap()@ && signed_challenge@ == sig_bytes_of(
                    post.key.unwrap()@,
                    challenge@,
                ) && signed_challenge.wf() && pub_certificate@ == vk_of(post.key.unwrap()@)) && (
                out@[1] matches Command::AuthBegin { username } && username@ == pre.username@))
            }
        },
        Command::ChallengeRequest { credential_id, challenge } => {
            if !(pre.stage is AuthRequested) {
                client_violation(pre, post, r)
            } else if credential_id@ != pre.key_id.unwrap()@ {
                client_failed(pre, post, r, ProtoError::AuthenticationError)
            } else {
                &&& post == ClientSession { stage: ClientStage::Authenticated, ..pre }
                &&& (r matches Ok(p) && p matches Progress::Replies(out) && out@.len() == 1 && (
                out@[0] matches Command::ChallengeResponse { signed_challenge, credential_id: id }
                    && signed_challenge@ == sig_bytes_of(pre.key.unwrap()@, challenge@)
                    && signed_challenge.wf() && sig_valid(
                    vk_of(pre.key.unwrap()@),
                    challenge@,
                    signed_challenge@,
                ) && id@ == credential_id@))
            }
        },
        Command::TextMessage(line) => {
            if !(pre.stage is Authenticated) {
                client_violation(pre, post, r)
            } else {
                &&& post == ClientSession { stage: ClientStage::Done, ..pre }
                &&& (r matches Ok(p) && p matches Progress::Finished(out, text) && out@.len() == 1
                    && (out@[0] matches Command::TextMessage(g) && g@ == client_greeting(
                    pre.username@,
                )) && text@ == line@)
            }
        },
        _ => client_violation(pre, post, r),
    }
}

/// One connection's server-side session: the username that asked to
/// register, the public key and credential id bound to it, and the
/// challenge most recently issued and not yet answered.
pub struct ServerSession {
    pub server_name: String,
    pub stage: ServerStage,
    pub username: Option<String>,
    pub key: Option<VerifyingKey>,
    pub credential_id: Option<String>,
    pub challenge: Option<Vec<u8>>,
}

impl ServerSession {
    /// What every reachable server session satisfies: each stage finds
    /// the state its checks depend on already bound.
    pub open spec fn wf(self) -> bool {
        &&& (self.stage is AwaitingCertResponse ==> self.username is Some && self.challenge
            is Some)
        &&& (self.stage is AwaitingAuthBegin ==> self.username is Some && (
        self.key matches Some(k) && k.wf()) && self.credential_id is Some)
        &&& (self.stage is AwaitingChallengeResponse ==> self.username is Some && (
        self.key matches Some(k) && k.wf()) && self.credential_id is Some && self.challenge
            is Some)
    }

    /// A fresh server session for one connection.
    pub fn new(server_name: String) -> (r: Self)
        ensures
            r.wf(),
            r.stage is AwaitingRegistration,
            r.server_name@ == server_name@,
            r.username is None,
            r.key is None,
            r.credential_id is None,
            r.challenge is None,
    {
        ServerSession {
            server_name,
            stage: ServerStage::AwaitingRegistration,
            username: None,
            key: None,
            credential_id: None,
            challenge: None,
        }
    }

    /// Feeds one received message to the server machine.
    pub fn step(&mut self, msg: Command) -> (r: Result<Progress, ProtoError>)
        requires
            old(self).wf(),
            msg.wf(),
        ensures
            final(self).wf(),
            server_step_rel(*old(self), msg, *final(self), r),
    {
        match msg {
            Command::NoMessage => {
                self.stage = ServerStage::Done;
                Ok(Progress::Closed)
            },
            Command::NewUserBegin { username } => {
                if !(self.stage == ServerStage::AwaitingRegistration) {
                    self.stage = ServerStage::Failed;
                    return Err(ProtoError::ProtocolViolation);
                }
                let challenge = new_challenge();
                let request = Command::CertRequest {
                    server: self.server_name.clone(),
                    challenge: slice_to_vec(challenge.as_slice()),
                };
                self.username = Some(username);
                self.challenge = Some(challenge);
                self.stage = ServerStage::AwaitingCertResponse;
                let mut out: Vec<Command> = Vec::new();
                out.push(request);
                Ok(Progress::Replies(out))
            },
            Command::CertResponse { credential_id, signed_challenge, pub_certificate } => {
                if !(self.stage == ServerStage::AwaitingCertResponse) {
                    self.stage = ServerStage::Failed;
                    return Err(ProtoError::ProtocolViolation);
                }
                let key = match decode_public_key(pub_certificate.as_slice()) {
                    Ok(key) => key,
                    Err(e) => {
                        self.stage = ServerStage::Failed;
                        return Err(e);
                    },
                };
                let challenge = self.challenge.as_ref().unwrap();
                if !validate_signature(&key, challenge.as_slice(), &signed_challenge) {
                    self.stage = ServerStage::Failed;
                    return Err(ProtoError::AuthenticationError);
                }
                self.key = Some(key);
                self.credential_id = Some(credential_id);
                self.stage = ServerStage::AwaitingAuthBegin;
                Ok(Progress::Replies(Vec::new()))
            },
            Command::AuthBegin { username } => {
                if !(self.stage == ServerStage::AwaitingAuthBegin) {
                    self.stage = ServerStage::Failed;
                    return Err(ProtoError::ProtocolViolation);
                }
                let bound = self.username.as_ref().unwrap();
                if !(username == *bound) {
                    self.stage = ServerStage::Failed;
                    return Err(ProtoError::AuthenticationError);
                }
                let challenge = new_challenge();
                let request = Command::ChallengeRequest {
                    credential_id: self.credential_id.as_ref().unwrap().clone(),
                    challenge: slice_to_vec(challenge.as_slice()),
                };
                self.challenge = Some(challenge);
                self.stage = ServerStage::AwaitingChallengeResponse;
                let mut out: Vec<Command> = Vec::new();
                out.push(request);
                Ok(Progress::Replies(out))
            },
            Command::ChallengeResponse { signed_challenge, credential_id } => {
                if !(self.stage == ServerStage::AwaitingChallengeResponse) {
                    self.stage = ServerStage::Failed;
                    return Err(ProtoError::ProtocolViolation);
                }
                let bound = self.credential_id.as_ref().unwrap();
                if !(credential_id == *bound) {
                    self.stage = ServerStage::Failed;
                    return Err(ProtoError::AuthenticationError);
                }
                let key = self.key.as_ref().unwrap();
                let challenge = self.challenge.as_ref().unwrap();
                if !validate_signature(key, challenge.as_slice(), &signed_challenge) {
                    self.stage = ServerStage::Failed;
                    return Err(ProtoError::AuthenticationError);
                }
                let greeting = make_server_greeting(self.username.as_ref().unwrap());
                self.stage = ServerStage::Authenticated;
                let mut out: Vec<Command> = Vec::new();
                out.push(Command::TextMessage(greeting));
                Ok(Progress::Replies(out))
            },
            Command::TextMessage(line) => {
                if !(self.stage == ServerStage::Authenticated) {
                    self.stage = ServerStage::Failed;
                    return Err(ProtoError::ProtocolViolation);
                }
                self.stage = ServerStage::Done;
                Ok(Progress::Finished(Vec::new(), line))
            },
            _ => {
                self.stage = ServerStage::Failed;
                Err(ProtoError::ProtocolViolation)
            },
        }
    }
}

/// The session failed: only the stage changes.
pub open spec fn server_failed(
    pre: ServerSession,
    post: ServerSession,
    r: Result<Progress, ProtoError>,
    e: ProtoError,
) -> bool {
    &&& post == ServerSession { stage: ServerStage::Failed, ..pre }
    &&& (r matches Err(a) && a == e)
}

/// A message of the wrong variant for the stage: fatal.
pub open spec fn server_violation(
    pre: ServerSession,
    post: ServerSession,
    r: Result<Progress, ProtoError>,
) -> bool {
    server_failed(pre, post, r, ProtoError::ProtocolViolation)
}

/// The complete transition relation of the server machine: for every
/// stage and every received message, what the step returns and how the
/// session changes.
pub open spec fn server_step_rel(
    pre: ServerSession,
    msg: Command,
    post: ServerSession,
    r: Result<Progress, ProtoError>,
) -> bool {
    match msg {
        Command::NoMessage => {
            &&& post == ServerSession { stage: ServerStage::Done, ..pre }
            &&& (r matches Ok(p) && p is Closed)
        },
        Command::NewUserBegin { username } => {
            if !(pre.stage is AwaitingRegistration) {
                server_violation(pre, post, r)
            } else {
                &&& post.stage is AwaitingCertResponse
                &&& (post.username matches Some(u) && u@ == username@)
                &&& (post.challenge matches Some(c) && c@.len() == CHALLENGE_LEN)
                &&& post.server_name == pre.server_name
                &&& post.key == pre.key
                &&& post.credential_id == pre.credential_id
                &&& (r matches Ok(p) && p matches Progress::Replies(out) && out@.len() == 1 && (
                out@[0] matches Command::CertRequest { server, challenge } && server@
                    == pre.server_name@ && challenge@ == post.challenge.unwrap()@))
            }
        },
        Command::CertResponse { credential_id, signed_challenge, pub_certificate } => {
            if !(pre.stage is AwaitingCertResponse) {
                server_violation(pre, post, r)
            } else if !(pub_certificate@.len() == PUBLIC_KEY_LEN && key_valid(pub_certificate@)) {
                server_failed(pre, post, r, ProtoError::CredentialError)
            } else if !sig_valid(pub_certificate@, pre.challenge.unwrap()@, signed_challenge@) {
                server_failed(pre, post, r, ProtoError::AuthenticationError)
            } else {
                &&& post.stage is AwaitingAuthBegin
                &&& (post.key matches Some(k) && k@ == pub_certificate@)
                &&& (post.credential_id matches Some(id) && id@ == credential_id@)
                &&& post.username == pre.username
                &&& post.server_name == pre.server_name
                &&& post.challenge == pre.challenge
                &&& (r matches Ok(p) && p matches Progress::Replies(out) && out@.len() == 0)
            }
        },
        Command::AuthBegin { username } => {
            if !(pre.stage is AwaitingAuthBegin) {
                server_violation(pre, post, r)
            } else if username@ != pre.username.unwrap()@ {
                server_failed(pre, post, r, ProtoError::AuthenticationError)
            } else {
                &&& post.stage is AwaitingChallengeResponse
                &&& (post.challenge matches Some(c) && c@.len() == CHALLENGE_LEN)
                &&& post.username == pre.username
                &&& post.server_name == pre.server_name
                &&& post.key == pre.key
                &&& post.credential_id == pre.credential_id
                &&& (r matches Ok(p) && p matches Progress::Replies(out) && out@.len() == 1 && (
                out@[0] matches Command::ChallengeRequest { credential_id, challenge }
                    && credential_id@ == pre.credential_id.unwrap()@ && challenge@
                    == post.challenge.unwrap()@))
            }
        },
        Command::ChallengeResponse { signed_challenge, credential_id } => {
            if !(pre.stage is AwaitingChallengeResponse) {
                server_violation(pre, post, r)
            } else if credential_id@ != pre.credential_id.unwrap()@ {
                server_failed(pre, post, r, ProtoError::AuthenticationError)
            } else if !sig_valid(
                pre.key.unwrap()@,
                pre.challenge.unwrap()@,
                signed_challenge@,
            ) {
                server_failed(pre, post, r, ProtoError::AuthenticationError)
            } else {
                &&& post == ServerSession { stage: ServerStage::Authenticated, ..pre }
                &&& (r matches Ok(p) && p matches Progress::Replies(out) && out@.len() == 1 && (
                out@[0] matches Command::TextMessage(g) && g@ == server_greeting(
                    pre.username.unwrap()@,
                )))
            }
        },
        Command::TextMessage(line) => {
            if !(pre.stage is Authenticated) {
                server_violation(pre, post, r)
            } else {
                &&& post == ServerSession { stage: ServerStage::Done, ..pre }
                &&& (r matches Ok(p) && p matches Progress::Finished(out, text) && out@.len() == 0
                    && text@ == line@)
            }
        },
        _ => server_violation(pre, post, r),
    }
}

} // verus!

verus! {

/// The `i`-th message a step asked its worker to send.
pub open spec fn reply_of(r: Result<Progress, ProtoError>, i: int) -> Command {
    match r {
        Ok(Progress::Replies(out)) => out@[i],
        Ok(Progress::Finished(out, _)) => out@[i],
        _ => Command::NoMessage,
    }
}

/// Happy path: a client and a server that faithfully hand each step's
/// output to the other - for any username and server name - complete the
/// whole handshake with no error: every step accepts, both machines end
/// in `Done`, and each side surfaces exactly the other's greeting.
pub proof fn lemma_handshake_completes(
    c1: ClientSession,
    c2: ClientSession,
    c3: ClientSession,
    c4: ClientSession,
    s0: ServerSession,
    s1: ServerSession,
    s2: ServerSession,
    s3: ServerSession,
    s4: ServerSession,
    s5: ServerSession,
    m1: Command,
    m2: Command,
    m3: Command,
    m4: Command,
    m5: Command,
    m6: Command,
    m7: Command,
    m8: Command,
    rs1: Result<Progress, ProtoError>,
    rc2: Result<Progress, ProtoError>,
    rs3: Result<Progress, ProtoError>,
    rs4: Result<Progress, ProtoError>,
    rc5: Result<Progress, ProtoError>,
    rs6: Result<Progress, ProtoError>,
    rc7: Result<Progress, ProtoError>,
    rs8: Result<Progress, ProtoError>,
)
    requires
// the client has sent its registration request ...

        c1.stage is RegistrationRequested,
        (m1 matches Command::NewUserBegin { username } && username@ == c1.username@),
        // ... to a fresh server session
        s0.stage is AwaitingRegistration,
        server_step_rel(s0, m1, s1, rs1),
        // the server's challenge goes back to the client
        m2 == reply_of(rs1, 0),
        client_step_rel(c1, m2, c2, rc2),
        // the client's certificate response and auth request reach the server in order
        m3 == reply_of(rc2, 0),
        m4 == reply_of(rc2, 1),
        server_step_rel(s1, m3, s2, rs3),
        server_step_rel(s2, m4, s3, rs4),
        // the server's second challenge goes back to the client
        m5 == reply_of(rs4, 0),
        client_step_rel(c2, m5, c3, rc5),
        // the client's challenge response reaches the server
        m6 == reply_of(rc5, 0),
        server_step_rel(s3, m6, s4, rs6),
        // the server's greeting reaches the client
        m7 == reply_of(rs6, 0),
        client_step_rel(c3, m7, c4, rc7),
        // the client's greeting reaches the server
        m8 == reply_of(rc7, 0),
        server_step_rel(s4, m8, s5, rs8),
    ensures
        rs1 is Ok,
        rc2 is Ok,
        rs3 is Ok,
        rs4 is Ok,
        rc5 is Ok,
        rs6 is Ok,
        rc7 is Ok,
        rs8 is Ok,
        c4.stage is Done,
        s5.stage is Done,
        (rc7 matches Ok(p) && p matches Progress::Finished(_, text) && text@ == server_greeting(
            c1.username@,
        )),
        (rs8 matches Ok(p) && p matches Progress::Finished(_, text) && text@ == client_greeting(
            c1.username@,
        )),
{
    assert(s1.stage is AwaitingCertResponse);
    assert(m2 matches Command::CertRequest { server: _, challenge } && challenge@
        == s1.challenge.unwrap()@);
    assert(c2.stage is AuthRequested);
    let k = c2.key.unwrap()@;
    assert(m3 matches Command::CertResponse { credential_id, signed_challenge, pub_certificate }
        && pub_certificate@ == vk_of(k) && signed_challenge@ == sig_bytes_of(
        k,
        s1.challenge.unwrap()@,
    ) && credential_id@ == c2.key_id.unwrap()@);
    assert(key_valid(vk_of(k)) && vk_of(k).len() == PUBLIC_KEY_LEN);
    assert(sig_valid(vk_of(k), s1.challenge.unwrap()@, sig_bytes_of(k, s1.challenge.unwrap()@)));
    assert(rs3 is Ok);
    assert(s2.stage is AwaitingAuthBegin);
    assert(s2.key.unwrap()@ == vk_of(k));
    assert(s2.credential_id.unwrap()@ == c2.key_id.unwrap()@);
    assert(s2.username.unwrap()@ == c1.username@);
    assert(m4 matches Command::AuthBegin { username } && username@ == c1.username@);
    assert(rs4 is Ok);
    assert(s3.stage is AwaitingChallengeResponse);
    assert(m5 matches Command::ChallengeRequest { credential_id, challenge } && credential_id@
        == c2.key_id.unwrap()@ && challenge@ == s3.challenge.unwrap()@);
    assert(rc5 is Ok);
    assert(c3.stage is Authenticated);
    assert(m6 matches Command::ChallengeResponse { signed_challenge, credential_id }
        && signed_challenge@ == sig_bytes_of(k, s3.challenge.unwrap()@) && credential_id@
        == c2.key_id.unwrap()@);
    assert(sig_valid(vk_of(k), s3.challenge.unwrap()@, sig_bytes_of(k, s3.challenge.unwrap()@)));
    assert(rs6 is Ok);
    assert(s4.stage is Authenticated);
    assert(s4.username.unwrap()@ == c1.username@);
    assert(m7 matches Command::TextMessage(g) && g@ == server_greeting(c1.username@));
    assert(rc7 is Ok);
    assert(c4.stage is Done);
    assert(m8 matches Command::TextMessage(g) && g@ == client_greeting(c1.username@));
    assert(rs8 is Ok);
    assert(s5.stage is Done);
}

} // verus!

verus! {

/// The one message variant a client stage is prepared to accept.
pub open spec fn client_expects(stage: ClientStage, msg: Command) -> bool {
    match stage {
        ClientStage::RegistrationRequested => msg is CertRequest,
        ClientStage::AuthRequested => msg is ChallengeRequest,
        ClientStage::Authenticated => msg is TextMessage,
        ClientStage::Idle | ClientStage::Done | ClientStage::Failed => false,
    }
}

/// The one message variant a server stage is prepared to accept.
pub open spec fn server_expects(stage: ServerStage, msg: Command) -> bool {
    match stage {
        ServerStage::AwaitingRegistration => msg is NewUserBegin,
        ServerStage::AwaitingCertResponse => msg is CertResponse,
        ServerStage::AwaitingAuthBegin => msg is AuthBegin,
        ServerStage::AwaitingChallengeResponse => msg is ChallengeResponse,
        ServerStage::Authenticated => msg is TextMessage,
        ServerStage::Done | ServerStage::Failed => false,
    }
}

/// Stage order is strict: a client that receives any message other than
/// the variant its stage expects (a clean close aside) fails with a
/// protocol violation, and the session is over.
pub proof fn lemma_client_rejects_out_of_order(
    pre: ClientSession,
    msg: Command,
    post: ClientSession,
    r: Result<Progress, ProtoError>,
)
    requires
        client_step_rel(pre, msg, post, r),
        !(msg is NoMessage),
        !client_expects(pre.stage, msg),
    ensures
        (r matches Err(e) && e == ProtoError::ProtocolViolation),
        post.stage is Failed,
{
}

/// Stage order is strict: a server that receives any message other than
/// the variant its stage expects (a clean close aside) fails with a
/// protocol violation, and the session is over.
pub proof fn lemma_server_rejects_out_of_order(
    pre: ServerSession,
    msg: Command,
    post: ServerSession,
    r: Result<Progress, ProtoError>,
)
    requires
        server_step_rel(pre, msg, post, r),
        !(msg is NoMessage),
        !server_expects(pre.stage, msg),
    ensures
        (r matches Err(e) && e == ProtoError::ProtocolViolation),
        post.stage is Failed,
{
}

/// A certificate response whose signature does not verify over the
/// challenge the server issued ends the session with an authentication
/// error - before the authentication phase is ever reached.
pub proof fn lemma_server_rejects_forged_signature(
    pre: ServerSession,
    msg: Command,
    post: ServerSession,
    r: Result<Progress, ProtoError>,
)
    requires
        server_step_rel(pre, msg, post, r),
        pre.stage is AwaitingCertResponse,
        (msg matches Command::CertResponse { credential_id: _, signed_challenge, pub_certificate }
            && !sig_valid(pub_certificate@, pre.challenge.unwrap()@, signed_challenge@)),
    ensures
        (r matches Err(e) && (e == ProtoError::AuthenticationError || e
            == ProtoError::CredentialError)),
        post.stage is Failed,
        post.key == pre.key,
{
}

} // verus!
