//! Frame codec behavior: round trips, incremental delivery, framing
//! faults.

use proto::codec::decode;
use proto::codec::encode;
use proto::codec::DecodeResult;
use proto::codec::FrameFault;
use proto::commands::Command;
use proto::signature::Signature;

fn sample_messages() -> Vec<Command> {
    vec![
        Command::NewUserBegin { username: "sergei".to_string() },
        Command::NewUserBegin { username: "".to_string() },
        Command::CertRequest { server: "localhost".to_string(), challenge: vec![7u8; 128] },
        Command::CertRequest { server: "".to_string(), challenge: Vec::new() },
        Command::CertResponse {
            credential_id: "k1".to_string(),
            signed_challenge: Signature { bytes: vec![9u8; 64] },
            pub_certificate: vec![1u8; 32],
        },
        Command::CertResponse {
            credential_id: "".to_string(),
            signed_challenge: Signature { bytes: vec![0u8; 64] },
            pub_certificate: Vec::new(),
        },
        Command::AuthBegin { username: "sergei".to_string() },
        Command::ChallengeRequest { credential_id: "k1".to_string(), challenge: vec![3u8; 128] },
        Command::ChallengeResponse {
            signed_challenge: Signature { bytes: vec![5u8; 64] },
            credential_id: "k1".to_string(),
        },
        Command::TextMessage("hello there".to_string()),
        Command::TextMessage("".to_string()),
        Command::NoMessage,
    ]
}

#[test]
fn round_trip_every_variant() {
    for message in sample_messages() {
        let encoded = encode(&message);
        match decode(encoded.as_slice()) {
            DecodeResult::Complete(decoded, consumed) => {
                assert_eq!(decoded, message);
                assert_eq!(consumed, encoded.len());
            }
            _ => panic!("expected a complete decode"),
        }
    }
}

#[test]
fn every_proper_prefix_is_incomplete() {
    for message in sample_messages() {
        let encoded = encode(&message);
        for cut in 0..encoded.len() {
            assert!(matches!(decode(&encoded[..cut]), DecodeResult::Incomplete));
        }
    }
}

#[test]
fn two_frames_decode_in_order() {
    let first = Command::TextMessage("first".to_string());
    let second = Command::AuthBegin { username: "sergei".to_string() };
    let mut bytes = encode(&first);
    bytes.extend_from_slice(encode(&second).as_slice());
    let n1 = match decode(bytes.as_slice()) {
        DecodeResult::Complete(decoded, consumed) => {
            assert_eq!(decoded, first);
            consumed
        }
        _ => panic!("expected the first frame"),
    };
    match decode(&bytes[n1..]) {
        DecodeResult::Complete(decoded, consumed) => {
            assert_eq!(decoded, second);
            assert_eq!(n1 + consumed, bytes.len());
        }
        _ => panic!("expected the second frame"),
    }
}

#[test]
fn unknown_tag_is_malformed() {
    let bytes = vec![99u8, 0, 0, 0];
    assert!(matches!(
        decode(bytes.as_slice()),
        DecodeResult::Malformed(FrameFault::UnknownTag)
    ));
}

#[test]
fn invalid_utf8_text_is_malformed() {
    // a TextMessage frame whose one-byte text is not UTF-8
    let mut bytes = vec![6u8, 0, 0, 0];
    bytes.extend_from_slice(&[1, 0, 0, 0, 0, 0, 0, 0]);
    bytes.push(0xFF);
    assert!(matches!(
        decode(bytes.as_slice()),
        DecodeResult::Malformed(FrameFault::InvalidText)
    ));
}

#[test]
fn wrong_signature_length_is_malformed() {
    let good = Command::ChallengeResponse {
        signed_challenge: Signature { bytes: vec![5u8; 64] },
        credential_id: "k1".to_string(),
    };
    let mut bytes = encode(&good);
    // shrink the signature's length prefix from 64 to 63: now a
    // fixed-length field carries the wrong length
    bytes[4] = 63;
    assert!(matches!(
        decode(bytes.as_slice()),
        DecodeResult::Malformed(FrameFault::WrongLength)
    ));
}

#[test]
fn encoding_is_tag_then_length_prefixed_fields() {
    let encoded = encode(&Command::TextMessage("ab".to_string()));
    assert_eq!(
        encoded,
        vec![6u8, 0, 0, 0, 2, 0, 0, 0, 0, 0, 0, 0, b'a', b'b']
    );
    assert_eq!(encode(&Command::NoMessage), vec![7u8, 0, 0, 0]);
}
