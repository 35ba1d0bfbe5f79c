//! Receive-buffer behavior: multi-frame draining, chunked feeding, and
//! the end-of-stream policy.

use proto::codec::encode;
use proto::commands::Command;
use proto::errors::ProtoError;
use proto::mut_buf::MutBuf;

#[test]
fn multiple_messages_in_buffer() {
    let command1 = Command::TextMessage("Command 1".into());
    let command2 = Command::TextMessage("Command 2".into());

    let buf1 = encode(&command1);
    let buf2 = encode(&command2);

    // create a buffer
    let mut mut_buf = MutBuf::new(buf1.len() + buf2.len());
    assert_eq!(mut_buf.writable(), buf1.len() + buf2.len());

    // write element 1
    mut_buf.add_consumable(buf1.as_slice());
    assert_eq!(mut_buf.consumable().len(), buf1.len());

    // write element 2
    mut_buf.add_consumable(buf2.as_slice());
    assert_eq!(mut_buf.consumable().len(), buf1.len() + buf2.len());

    // validate
    let parsed_command1 = mut_buf
        .parse_frame()
        .unwrap()
        .expect("First command is empty");
    let parsed_command2 = mut_buf
        .parse_frame()
        .unwrap()
        .expect("Second command is empty");

    assert_eq!(parsed_command1, command1);
    println!(
        "Buffer size: {}, position: {}",
        mut_buf.writable() + mut_buf.consumable().len(),
        mut_buf.consumable().len()
    );

    assert_eq!(parsed_command2, command2);
    println!(
        "Buffer size: {}, position: {}",
        mut_buf.writable() + mut_buf.consumable().len(),
        mut_buf.consumable().len()
    );

    // should be empty
    assert_eq!(true, mut_buf.is_empty());
}

#[test]
fn one_byte_at_a_time_completes_on_the_last_byte() {
    let message = Command::AuthBegin { username: "sergei".to_string() };
    let encoded = encode(&message);
    let mut buf = MutBuf::new(4);
    for (i, byte) in encoded.iter().enumerate() {
        let parsed = buf.parse_frame().expect("prefixes are never malformed");
        assert!(parsed.is_none(), "no message before byte {}", i);
        buf.add_consumable(&[*byte]);
    }
    let parsed = buf.parse_frame().unwrap().expect("full frame present");
    assert_eq!(parsed, message);
    assert!(buf.is_empty());
}

#[test]
fn buffer_grows_beyond_its_initial_storage() {
    let message = Command::CertRequest {
        server: "localhost".to_string(),
        challenge: vec![42u8; 500],
    };
    let encoded = encode(&message);
    let mut buf = MutBuf::new(8);
    buf.add_consumable(encoded.as_slice());
    let parsed = buf.parse_frame().unwrap().expect("full frame present");
    assert_eq!(parsed, message);
}

#[test]
fn close_with_empty_buffer_is_graceful() {
    let buf = MutBuf::new(64);
    assert_eq!(buf.end_of_stream(), Ok(Command::NoMessage));
}

#[test]
fn close_mid_frame_is_a_connection_reset() {
    // only the discriminator byte of a larger record has arrived
    let mut buf = MutBuf::new(64);
    buf.add_consumable(&[6u8]);
    assert!(buf.parse_frame().unwrap().is_none());
    assert_eq!(buf.end_of_stream(), Err(ProtoError::ConnectionReset));
}

#[test]
fn malformed_bytes_are_a_framing_error() {
    let mut buf = MutBuf::new(64);
    buf.add_consumable(&[250u8, 0, 0, 0]);
    assert_eq!(buf.parse_frame(), Err(ProtoError::FramingError));
}

#[test]
fn discard_drops_only_the_front() {
    let first = encode(&Command::NoMessage);
    let second = encode(&Command::TextMessage("tail".to_string()));
    let mut buf = MutBuf::new(4);
    buf.add_consumable(first.as_slice());
    buf.add_consumable(second.as_slice());
    buf.discard(first.len());
    let parsed = buf.parse_frame().unwrap().expect("second frame intact");
    assert_eq!(parsed, Command::TextMessage("tail".to_string()));
}

#[test]
fn storage_doubles_when_spare_space_is_exhausted() {
    let mut buf = MutBuf::new(4);
    // three bytes fit strictly inside the spare space: storage untouched
    buf.add_consumable(&[1, 2, 3]);
    assert_eq!(buf.writable(), 1);
    // the fourth byte exhausts it: storage doubles from 4 to 8
    buf.add_consumable(&[4]);
    assert_eq!(buf.writable(), 4);
    // a chunk too large even for doubled storage gets exactly its room
    buf.add_consumable(&[0u8; 13]);
    assert_eq!(buf.writable(), 0);
    assert_eq!(buf.consumable().len(), 17);
}
