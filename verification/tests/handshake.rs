//! Credential engine and handshake behavior: signature validity, the
//! happy path over the wire, forged signatures, and stage-order
//! violations.

use proto::codec::encode;
use proto::commands::Command;
use proto::errors::ProtoError;
use proto::mut_buf::MutBuf;
use proto::session::ClientSession;
use proto::session::ClientStage;
use proto::session::Progress;
use proto::session::ServerSession;
use proto::session::ServerStage;
use proto::signature::decode_public_key;
use proto::signature::encode_public_key;
use proto::signature::make_new_key;
use proto::signature::new_challenge;
use proto::signature::new_key_id;
use proto::signature::sign_challenge;
use proto::signature::validate_signature;

/// Passes a message through the frame codec, as the transport would.
fn through_wire(message: &Command) -> Command {
    let encoded = encode(message);
    let mut buf = MutBuf::new(encoded.len());
    buf.add_consumable(encoded.as_slice());
    let parsed = buf
        .parse_frame()
        .expect("a whole frame is never malformed")
        .expect("a whole frame is complete");
    assert!(buf.is_empty());
    parsed
}

fn replies(step: Result<Progress, ProtoError>) -> Vec<Command> {
    match step {
        Ok(Progress::Replies(out)) => out,
        other => panic!("expected replies, got {:?}", other),
    }
}

#[test]
fn signature_validity() {
    let key = make_new_key();
    let public_key = key.verifying_key();
    let challenge = new_challenge();
    assert_eq!(challenge.len(), 128);
    let signature = sign_challenge(&key, challenge.as_slice());
    assert_eq!(signature.bytes.len(), 64);
    assert!(validate_signature(&public_key, challenge.as_slice(), &signature));

    // a different keypair's public key rejects it
    let other_key = make_new_key().verifying_key();
    assert!(!validate_signature(&other_key, challenge.as_slice(), &signature));

    // a one-bit-flipped challenge rejects it
    let mut flipped = challenge.clone();
    flipped[0] ^= 1;
    assert!(!validate_signature(&public_key, flipped.as_slice(), &signature));

    // a one-bit-flipped signature rejects it
    let mut forged = signature.clone();
    forged.bytes[0] ^= 1;
    assert!(!validate_signature(&public_key, challenge.as_slice(), &forged));
}

#[test]
fn challenges_are_fresh() {
    assert_ne!(new_challenge(), new_challenge());
}

#[test]
fn public_key_byte_form_round_trips() {
    let public_key = make_new_key().verifying_key();
    let bytes = encode_public_key(&public_key);
    assert_eq!(bytes.len(), 32);
    let decoded = decode_public_key(bytes.as_slice()).expect("a real key decodes");
    assert_eq!(decoded.bytes, public_key.bytes);
    assert_eq!(
        decode_public_key(&bytes[..31]),
        Err(ProtoError::CredentialError)
    );
    assert_eq!(
        decode_public_key(&[0u8; 40]),
        Err(ProtoError::CredentialError)
    );
}

#[test]
fn key_ids_fit_a_decimal_string() {
    // nothing is promised of the value; the call must simply work
    let _ = new_key_id().to_string();
}

#[test]
fn happy_path_handshake() {
    let mut client = ClientSession::new("sergei".to_string());
    let mut server = ServerSession::new("localhost".to_string());

    // client: NewUserBegin
    let m1 = client.start();
    assert_eq!(
        m1,
        Command::NewUserBegin { username: "sergei".to_string() }
    );

    // server: CertRequest with a fresh 128-byte challenge
    let out = replies(server.step(through_wire(&m1)));
    assert_eq!(out.len(), 1);
    let m2 = out.into_iter().next().unwrap();
    match &m2 {
        Command::CertRequest { server: server_name, challenge } => {
            assert_eq!(server_name, "localhost");
            assert_eq!(challenge.len(), 128);
        }
        other => panic!("expected a certificate request, got {:?}", other),
    }

    // client: CertResponse then AuthBegin
    let out = replies(client.step(through_wire(&m2)));
    assert_eq!(out.len(), 2);
    let mut it = out.into_iter();
    let m3 = it.next().unwrap();
    let m4 = it.next().unwrap();
    assert!(matches!(m3, Command::CertResponse { .. }));
    assert_eq!(
        m4,
        Command::AuthBegin { username: "sergei".to_string() }
    );

    // server accepts the certificate and binds the credential
    let out = replies(server.step(through_wire(&m3)));
    assert!(out.is_empty());
    assert_eq!(server.stage, ServerStage::AwaitingAuthBegin);

    // server answers the auth request with a second challenge
    let out = replies(server.step(through_wire(&m4)));
    assert_eq!(out.len(), 1);
    let m5 = out.into_iter().next().unwrap();
    match (&m3, &m5) {
        (
            Command::CertResponse { credential_id: registered, .. },
            Command::ChallengeRequest { credential_id: echoed, challenge },
        ) => {
            assert_eq!(echoed, registered);
            assert_eq!(challenge.len(), 128);
        }
        other => panic!("expected a challenge request, got {:?}", other),
    }

    // client signs the second challenge
    let out = replies(client.step(through_wire(&m5)));
    assert_eq!(out.len(), 1);
    let m6 = out.into_iter().next().unwrap();
    assert!(matches!(m6, Command::ChallengeResponse { .. }));

    // server accepts and greets
    let out = replies(server.step(through_wire(&m6)));
    assert_eq!(server.stage, ServerStage::Authenticated);
    assert_eq!(out.len(), 1);
    let m7 = out.into_iter().next().unwrap();
    assert_eq!(
        m7,
        Command::TextMessage("Hello [sergei] from server".to_string())
    );

    // client surfaces the greeting and answers with its own
    let m8 = match client.step(through_wire(&m7)) {
        Ok(Progress::Finished(out, text)) => {
            assert_eq!(text, "Hello [sergei] from server");
            assert_eq!(out.len(), 1);
            out.into_iter().next().unwrap()
        }
        other => panic!("expected the client to finish, got {:?}", other),
    };
    assert_eq!(
        m8,
        Command::TextMessage("Hello from [sergei]".to_string())
    );
    assert_eq!(client.stage, ClientStage::Done);

    // server surfaces the client's greeting; the session ends
    match server.step(through_wire(&m8)) {
        Ok(Progress::Finished(out, text)) => {
            assert!(out.is_empty());
            assert_eq!(text, "Hello from [sergei]");
        }
        other => panic!("expected the server to finish, got {:?}", other),
    }
    assert_eq!(server.stage, ServerStage::Done);
}

/// Drives a server to the point where it awaits a certificate response,
/// returning the challenge it issued.
fn server_awaiting_cert() -> (ServerSession, Vec<u8>) {
    let mut server = ServerSession::new("localhost".to_string());
    let out = replies(server.step(Command::NewUserBegin { username: "sergei".to_string() }));
    match out.into_iter().next().unwrap() {
        Command::CertRequest { challenge, .. } => (server, challenge),
        other => panic!("expected a certificate request, got {:?}", other),
    }
}

#[test]
fn forged_signature_is_rejected_before_auth() {
    let (mut server, _challenge) = server_awaiting_cert();
    // signature over a different challenge than the server issued
    let key = make_new_key();
    let forged = sign_challenge(&key, &[0u8; 128]);
    let response = Command::CertResponse {
        credential_id: "k1".to_string(),
        signed_challenge: forged,
        pub_certificate: encode_public_key(&key.verifying_key()),
    };
    assert_eq!(server.step(response), Err(ProtoError::AuthenticationError));
    assert_eq!(server.stage, ServerStage::Failed);
}

#[test]
fn signature_under_the_wrong_key_is_rejected() {
    let (mut server, challenge) = server_awaiting_cert();
    // a valid signature, but not by the key the certificate names
    let signing = make_new_key();
    let unrelated = make_new_key();
    let response = Command::CertResponse {
        credential_id: "k1".to_string(),
        signed_challenge: sign_challenge(&signing, challenge.as_slice()),
        pub_certificate: encode_public_key(&unrelated.verifying_key()),
    };
    assert_eq!(server.step(response), Err(ProtoError::AuthenticationError));
}

#[test]
fn malformed_certificate_is_a_credential_error() {
    let (mut server, challenge) = server_awaiting_cert();
    let key = make_new_key();
    let response = Command::CertResponse {
        credential_id: "k1".to_string(),
        signed_challenge: sign_challenge(&key, challenge.as_slice()),
        pub_certificate: vec![1u8; 31],
    };
    assert_eq!(server.step(response), Err(ProtoError::CredentialError));
    assert_eq!(server.stage, ServerStage::Failed);
}

#[test]
fn challenge_request_before_auth_begin_is_a_violation() {
    // the server speaks out of turn; the client rejects the message
    let mut client = ClientSession::new("sergei".to_string());
    let _ = client.start();
    let premature = Command::ChallengeRequest {
        credential_id: "k1".to_string(),
        challenge: vec![0u8; 128],
    };
    assert_eq!(client.step(premature), Err(ProtoError::ProtocolViolation));
    assert_eq!(client.stage, ClientStage::Failed);
}

#[test]
fn auth_begin_before_registration_is_a_violation() {
    let mut server = ServerSession::new("localhost".to_string());
    let premature = Command::AuthBegin { username: "sergei".to_string() };
    assert_eq!(server.step(premature), Err(ProtoError::ProtocolViolation));
    assert_eq!(server.stage, ServerStage::Failed);
}

#[test]
fn unknown_username_is_rejected_at_auth() {
    let (mut server, challenge) = server_awaiting_cert();
    let key = make_new_key();
    let response = Command::CertResponse {
        credential_id: "k1".to_string(),
        signed_challenge: sign_challenge(&key, challenge.as_slice()),
        pub_certificate: encode_public_key(&key.verifying_key()),
    };
    assert!(server.step(response).is_ok());
    let wrong_user = Command::AuthBegin { username: "mallory".to_string() };
    assert_eq!(server.step(wrong_user), Err(ProtoError::AuthenticationError));
}

#[test]
fn wrong_credential_id_is_rejected_by_the_client() {
    let mut client = ClientSession::new("sergei".to_string());
    let _ = client.start();
    let out = replies(client.step(Command::CertRequest {
        server: "localhost".to_string(),
        challenge: vec![0u8; 128],
    }));
    assert_eq!(out.len(), 2);
    let request = Command::ChallengeRequest {
        credential_id: "not-the-registered-id".to_string(),
        challenge: vec![0u8; 128],
    };
    assert_eq!(client.step(request), Err(ProtoError::AuthenticationError));
    assert_eq!(client.stage, ClientStage::Failed);
}

#[test]
fn peer_close_ends_the_session_without_error() {
    let mut server = ServerSession::new("localhost".to_string());
    assert_eq!(server.step(Command::NoMessage), Ok(Progress::Closed));
    assert_eq!(server.stage, ServerStage::Done);

    let mut client = ClientSession::new("sergei".to_string());
    let _ = client.start();
    assert_eq!(client.step(Command::NoMessage), Ok(Progress::Closed));
    assert_eq!(client.stage, ClientStage::Done);
}

#[test]
fn errors_describe_themselves() {
    assert_eq!(
        ProtoError::ConnectionReset.describe(),
        "connection reset by peer"
    );
    assert_eq!(
        ProtoError::IoError.describe(),
        "transport read or write failed"
    );
    assert_eq!(ProtoError::AuthenticationError.describe(), "authentication failed");
}
