//! The frame codec: one message, one frame. A frame is a 4-byte
//! little-endian tag followed by the variant's fields in declaration
//! order; every variable-length field is written as an 8-byte
//! little-endian length prefix followed by its raw bytes, text as UTF-8.
//! Frames are concatenated back to back with no separator: a decoder
//! tells them apart only by the exact byte count a frame consumes.

use crate::commands::Command;
use crate::commands::CommandModel;
use crate::signature::Signature;
use crate::SIGNATURE_LEN;
use vstd::bytes::lemma_auto_spec_u32_to_from_le_bytes;
use vstd::bytes::lemma_auto_spec_u64_to_from_le_bytes;
use vstd::bytes::spec_u32_from_le_bytes;
use vstd::bytes::spec_u32_to_le_bytes;
use vstd::bytes::spec_u64_from_le_bytes;
use vstd::bytes::spec_u64_to_le_bytes;
use vstd::bytes::u32_from_le_bytes;
use vstd::bytes::u32_to_le_bytes;
use vstd::bytes::u64_from_le_bytes;
use vstd::bytes::u64_to_le_bytes;
use vstd::prelude::*;
use vstd::slice::slice_subrange;
use vstd::slice::slice_to_vec;
use vstd::utf8::decode_utf8;
use vstd::utf8::encode_utf8;
use vstd::utf8::valid_utf8;

verus! {

/// The wire form of one variable-length field: an 8-byte little-endian
/// length prefix followed by the raw bytes.
pub open spec fn chunk_bytes(data: Seq<u8>) -> Seq<u8> {
    spec_u64_to_le_bytes(data.len() as u64) + data
}

/// The numeric tag that identifies a message variant on the wire.
pub open spec fn spec_tag(m: CommandModel) -> u32 {
    match m {
        CommandModel::NewUserBegin { .. } => 0,
        CommandModel::CertRequest { .. } => 1,
        CommandModel::CertResponse { .. } => 2,
        CommandModel::AuthBegin { .. } => 3,
        CommandModel::ChallengeRequest { .. } => 4,
        CommandModel::ChallengeResponse { .. } => 5,
        CommandModel::TextMessage(..) => 6,
        CommandModel::NoMessage => 7,
    }
}

/// The wire form of a message's fields, in declaration order.
pub open spec fn spec_payload(m: CommandModel) -> Seq<u8> {
    match m {
        CommandModel::NewUserBegin { username } => chunk_bytes(encode_utf8(username)),
        CommandModel::CertRequest { server, challenge } => chunk_bytes(encode_utf8(server))
            + chunk_bytes(challenge),
        CommandModel::CertResponse { credential_id, signed_challenge, pub_certificate } => {
            chunk_bytes(encode_utf8(credential_id)) + chunk_bytes(signed_challenge) + chunk_bytes(
                pub_certificate,
            )
        },
        CommandModel::AuthBegin { username } => chunk_bytes(encode_utf8(username)),
        CommandModel::ChallengeRequest { credential_id, challenge } => chunk_bytes(
            encode_utf8(credential_id),
        ) + chunk_bytes(challenge),
        CommandModel::ChallengeResponse { signed_challenge, credential_id } => chunk_bytes(
            signed_challenge,
        ) + chunk_bytes(encode_utf8(credential_id)),
        CommandModel::TextMessage(text) => chunk_bytes(encode_utf8(text)),
        CommandModel::NoMessage => Seq::empty(),
    }
}

/// The complete wire form of a message: tag, then payload. Total and
/// deterministic: every message has exactly one encoding.
pub open spec fn spec_encoding(m: CommandModel) -> Seq<u8> {
    spec_u32_to_le_bytes(spec_tag(m)) + spec_payload(m)
}

/// Whether a message model can appear on the wire at all: well formed,
/// with every variable-length field short enough for its length prefix.
pub open spec fn encodable(m: CommandModel) -> bool {
    &&& m.wf()
    &&& match m {
        CommandModel::NewUserBegin { username } => encode_utf8(username).len() <= u64::MAX,
        CommandModel::CertRequest { server, challenge } => encode_utf8(server).len() <= u64::MAX
            && challenge.len() <= u64::MAX,
        CommandModel::CertResponse { credential_id, signed_challenge, pub_certificate } => {
            encode_utf8(credential_id).len() <= u64::MAX && pub_certificate.len() <= u64::MAX
        },
        CommandModel::AuthBegin { username } => encode_utf8(username).len() <= u64::MAX,
        CommandModel::ChallengeRequest { credential_id, challenge } => encode_utf8(
            credential_id,
        ).len() <= u64::MAX && challenge.len() <= u64::MAX,
        CommandModel::ChallengeResponse { signed_challenge, credential_id } => encode_utf8(
            credential_id,
        ).len() <= u64::MAX,
        CommandModel::TextMessage(text) => encode_utf8(text).len() <= u64::MAX,
        CommandModel::NoMessage => true,
    }
}

/// Why a buffer's bytes cannot be a frame.
#[derive(Clone, Copy, Debug, PartialEq, Eq, Structural)]
pub enum FrameFault {
    /// The tag names no message variant.
    UnknownTag,
    /// A fixed-length field carries the wrong length.
    WrongLength,
    /// A text field holds bytes that are not UTF-8.
    InvalidText,
}

/// What decoding the front of a byte sequence yields: one complete
/// message and the exact count of bytes it consumed, a request for more
/// bytes, or a hard framing fault.
pub enum SpecDecode {
    Complete(CommandModel, int),
    Incomplete,
    Malformed(FrameFault),
}

/// One variable-length field read at a position: the field's bytes and
/// the position just past it, or too few bytes.
pub enum SpecChunk {
    Chunk(Seq<u8>, int),
    Short,
}

/// Reads one length-prefixed field at `pos`.
pub open spec fn spec_chunk_at(b: Seq<u8>, pos: int) -> SpecChunk {
    if b.len() < pos + 8 {
        SpecChunk::Short
    } else {
        let n = spec_u64_from_le_bytes(b.subrange(pos, pos + 8)) as int;
        if b.len() < pos + 8 + n {
            SpecChunk::Short
        } else {
            SpecChunk::Chunk(b.subrange(pos + 8, pos + 8 + n), pos + 8 + n)
        }
    }
}

/// Decodes the lone text field of a `NewUserBegin`, `AuthBegin` or
/// `TextMessage` frame and rebuilds the message with `make`.
pub open spec fn spec_decode_text_frame(
    b: Seq<u8>,
    make: spec_fn(Seq<char>) -> CommandModel,
) -> SpecDecode {
    match spec_chunk_at(b, 4) {
        SpecChunk::Short => SpecDecode::Incomplete,
        SpecChunk::Chunk(data, end) => if !valid_utf8(data) {
            SpecDecode::Malformed(FrameFault::InvalidText)
        } else {
            SpecDecode::Complete(make(decode_utf8(data)), end)
        },
    }
}

/// Decodes the text-then-bytes fields of a `CertRequest` or
/// `ChallengeRequest` frame and rebuilds the message with `make`.
pub open spec fn spec_decode_request_frame(
    b: Seq<u8>,
    make: spec_fn(Seq<char>, Seq<u8>) -> CommandModel,
) -> SpecDecode {
    match spec_chunk_at(b, 4) {
        SpecChunk::Short => SpecDecode::Incomplete,
        SpecChunk::Chunk(text, end1) => if !valid_utf8(text) {
            SpecDecode::Malformed(FrameFault::InvalidText)
        } else {
            match spec_chunk_at(b, end1) {
                SpecChunk::Short => SpecDecode::Incomplete,
                SpecChunk::Chunk(data, end2) => SpecDecode::Complete(
                    make(decode_utf8(text), data),
                    end2,
                ),
            }
        },
    }
}

/// Decodes the fields of a `CertResponse` frame: credential id,
/// signature (whose length must be exact), public key bytes.
pub open spec fn spec_decode_cert_response(b: Seq<u8>) -> SpecDecode {
    match spec_chunk_at(b, 4) {
        SpecChunk::Short => SpecDecode::Incomplete,
        SpecChunk::Chunk(id, end1) => if !valid_utf8(id) {
            SpecDecode::Malformed(FrameFault::InvalidText)
        } else {
            match spec_chunk_at(b, end1) {
                SpecChunk::Short => SpecDecode::Incomplete,
                SpecChunk::Chunk(sig, end2) => if sig.len() != SIGNATURE_LEN {
                    SpecDecode::Malformed(FrameFault::WrongLength)
                } else {
                    match spec_chunk_at(b, end2) {
                        SpecChunk::Short => SpecDecode::Incomplete,
                        SpecChunk::Chunk(cert, end3) => SpecDecode::Complete(
                            CommandModel::CertResponse {
                                credential_id: decode_utf8(id),
                                signed_challenge: sig,
                                pub_certificate: cert,
                            },
                            end3,
                        ),
                    }
                },
            }
        },
    }
}

/// Decodes the fields of a `ChallengeResponse` frame: signature (whose
/// length must be exact), then credential id.
pub open spec fn spec_decode_challenge_response(b: Seq<u8>) -> SpecDecode {
    match spec_chunk_at(b, 4) {
        SpecChunk::Short => SpecDecode::Incomplete,
        SpecChunk::Chunk(sig, end1) => if sig.len() != SIGNATURE_LEN {
            SpecDecode::Malformed(FrameFault::WrongLength)
        } else {
            match spec_chunk_at(b, end1) {
                SpecChunk::Short => SpecDecode::Incomplete,
                SpecChunk::Chunk(id, end2) => if !valid_utf8(id) {
                    SpecDecode::Malformed(FrameFault::InvalidText)
                } else {
                    SpecDecode::Complete(
                        CommandModel::ChallengeResponse {
                            signed_challenge: sig,
                            credential_id: decode_utf8(id),
                        },
                        end2,
                    )
                },
            }
        },
    }
}

/// Decodes one frame from the front of a byte sequence. This is the
/// reference meaning of the executable decoder: every proper prefix of a
/// frame yields `Incomplete`, a buffer that begins with a whole frame
/// yields that one message, and a fault is raised only when no extension
/// of the bytes present is a frame.
pub open spec fn spec_decode(b: Seq<u8>) -> SpecDecode {
    if b.len() < 4 {
        SpecDecode::Incomplete
    } else {
        let tag = spec_u32_from_le_bytes(b.subrange(0, 4));
        if tag == 0 {
            spec_decode_text_frame(b, |s| CommandModel::NewUserBegin { username: s })
        } else if tag == 1 {
            spec_decode_request_frame(b, |s, d| CommandModel::CertRequest {
                server: s,
                challenge: d,
            })
        } else if tag == 2 {
            spec_decode_cert_response(b)
        } else if tag == 3 {
            spec_decode_text_frame(b, |s| CommandModel::AuthBegin { username: s })
        } else if tag == 4 {
            spec_decode_request_frame(b, |s, d| CommandModel::ChallengeRequest {
                credential_id: s,
                challenge: d,
            })
        } else if tag == 5 {
            spec_decode_challenge_response(b)
        } else if tag == 6 {
            spec_decode_text_frame(b, |s| CommandModel::TextMessage(s))
        } else if tag == 7 {
            SpecDecode::Complete(CommandModel::NoMessage, 4)
        } else {
            SpecDecode::Malformed(FrameFault::UnknownTag)
        }
    }
}

/// What the executable decoder returned for the front of a buffer.
#[derive(Debug)]
pub enum DecodeResult {
    /// One message, and how many bytes of the buffer it consumed.
    Complete(Command, usize),
    /// Fewer bytes than the next frame requires; read more and retry.
    Incomplete,
    /// The bytes present can extend to no frame; a hard error.
    Malformed(FrameFault),
}

/// The executable result agrees with the specification result.
pub open spec fn decode_result_matches(r: DecodeResult, s: SpecDecode, buf_len: nat) -> bool {
    match r {
        DecodeResult::Complete(c, n) => s == SpecDecode::Complete(c@, n as int) && c.wf() && 0 < n
            <= buf_len,
        DecodeResult::Incomplete => s is Incomplete,
        DecodeResult::Malformed(f) => s == SpecDecode::Malformed(f),
    }
}

/// Relies on `core::str::from_utf8`: it succeeds exactly on valid UTF-8
/// and yields the characters that the bytes encode.
#[verifier::external_body]
fn bytes_to_string(v: &[u8]) -> (r: Option<String>)
    ensures
        r is Some <==> valid_utf8(v@),
        r matches Some(s) ==> s@ == decode_utf8(v@),
{
    match core::str::from_utf8(v) {
        Ok(s) => Some(s.to_owned()),
        Err(_) => None,
    }
}

/// Reads one length-prefixed field at `pos`, as the specification does.
fn take_chunk(bytes: &[u8], pos: usize) -> (r: Option<(Vec<u8>, usize)>)
    requires
        pos <= bytes@.len(),
    ensures
        r matches Some(c) ==> spec_chunk_at(bytes@, pos as int) == SpecChunk::Chunk(
            c.0@,
            c.1 as int,
        ) && pos < c.1 <= bytes@.len(),
        r is None ==> spec_chunk_at(bytes@, pos as int) is Short,
{
    if bytes.len() - pos < 8 {
        return None;
    }
    let n = u64_from_le_bytes(slice_subrange(bytes, pos, pos + 8));
    let rem = bytes.len() - (pos + 8);
    if n > rem as u64 {
        return None;
    }
    let len = n as usize;
    let end = pos + 8 + len;
    Some((slice_to_vec(slice_subrange(bytes, pos + 8, end)), end))
}

/// One text field read at a position.
enum TextChunk {
    Text(String, usize),
    Missing,
    Invalid,
}

/// Reads one length-prefixed text field at `pos` and decodes its UTF-8.
fn take_text_chunk(bytes: &[u8], pos: usize) -> (r: TextChunk)
    requires
        pos <= bytes@.len(),
    ensures
        r matches TextChunk::Text(s, end) ==> spec_chunk_at(bytes@, pos as int) matches
            SpecChunk::Chunk(data, e) && valid_utf8(data) && s@ == decode_utf8(data) && end as int
            == e && pos < end <= bytes@.len(),
        r is Missing ==> spec_chunk_at(bytes@, pos as int) is Short,
        r is Invalid ==> (spec_chunk_at(bytes@, pos as int) matches SpecChunk::Chunk(data, _)
            && !valid_utf8(data)),
{
    match take_chunk(bytes, pos) {
        None => TextChunk::Missing,
        Some((data, end)) => match bytes_to_string(data.as_slice()) {
            None => TextChunk::Invalid,
            Some(text) => TextChunk::Text(text, end),
        },
    }
}

/// One signature field read at a position.
enum SigChunk {
    Sig(Signature, usize),
    Missing,
    BadLen,
}

/// Reads one length-prefixed signature field at `pos`, insisting on the
/// scheme's exact signature length.
fn take_sig_chunk(bytes: &[u8], pos: usize) -> (r: SigChunk)
    requires
        pos <= bytes@.len(),
    ensures
        r matches SigChunk::Sig(s, end) ==> spec_chunk_at(bytes@, pos as int) matches
            SpecChunk::Chunk(data, e) && data.len() == SIGNATURE_LEN && s@ == data && s.wf()
            && end as int == e && pos < end <= bytes@.len(),
        r is Missing ==> spec_chunk_at(bytes@, pos as int) is Short,
        r is BadLen ==> (spec_chunk_at(bytes@, pos as int) matches SpecChunk::Chunk(data, _)
            && data.len() != SIGNATURE_LEN),
{
    match take_chunk(bytes, pos) {
        None => SigChunk::Missing,
        Some((data, end)) => {
            if data.len() != SIGNATURE_LEN {
                SigChunk::BadLen
            } else {
                SigChunk::Sig(Signature { bytes: data }, end)
            }
        },
    }
}

/// Attempts to decode one frame from the front of `bytes`.
pub fn decode(bytes: &[u8]) -> (r: DecodeResult)
    ensures
        decode_result_matches(r, spec_decode(bytes@), bytes@.len()),
{
    if bytes.len() < 4 {
        return DecodeResult::Incomplete;
    }
    let tag = u32_from_le_bytes(slice_subrange(bytes, 0, 4));
    if tag == 0 {
        match take_text_chunk(bytes, 4) {
            TextChunk::Missing => DecodeResult::Incomplete,
            TextChunk::Invalid => DecodeResult::Malformed(FrameFault::InvalidText),
            TextChunk::Text(username, end) => DecodeResult::Complete(
                Command::NewUserBegin { username },
                end,
            ),
        }
    } else if tag == 1 {
        match take_text_chunk(bytes, 4) {
            TextChunk::Missing => DecodeResult::Incomplete,
            TextChunk::Invalid => DecodeResult::Malformed(FrameFault::InvalidText),
            TextChunk::Text(server, end1) => match take_chunk(bytes, end1) {
                None => DecodeResult::Incomplete,
                Some((challenge, end2)) => DecodeResult::Complete(
                    Command::CertRequest { server, challenge },
                    end2,
                ),
            },
        }
    } else if tag == 2 {
        match take_text_chunk(bytes, 4) {
            TextChunk::Missing => DecodeResult::Incomplete,
            TextChunk::Invalid => DecodeResult::Malformed(FrameFault::InvalidText),
            TextChunk::Text(credential_id, end1) => match take_sig_chunk(bytes, end1) {
                SigChunk::Missing => DecodeResult::Incomplete,
                SigChunk::BadLen => DecodeResult::Malformed(FrameFault::WrongLength),
                SigChunk::Sig(signed_challenge, end2) => match take_chunk(bytes, end2) {
                    None => DecodeResult::Incomplete,
                    Some((pub_certificate, end3)) => DecodeResult::Complete(
                        Command::CertResponse { credential_id, signed_challenge, pub_certificate },
                        end3,
                    ),
                },
            },
        }
    } else if tag == 3 {
        match take_text_chunk(bytes, 4) {
            TextChunk::Missing => DecodeResult::Incomplete,
            TextChunk::Invalid => DecodeResult::Malformed(FrameFault::InvalidText),
            TextChunk::Text(username, end) => DecodeResult::Complete(
                Command::AuthBegin { username },
                end,
            ),
        }
    } else if tag == 4 {
        match take_text_chunk(bytes, 4) {
            TextChunk::Missing => DecodeResult::Incomplete,
            TextChunk::Invalid => DecodeResult::Malformed(FrameFault::InvalidText),
            TextChunk::Text(credential_id, end1) => match take_chunk(bytes, end1) {
                None => DecodeResult::Incomplete,
                Some((challenge, end2)) => DecodeResult::Complete(
                    Command::ChallengeRequest { credential_id, challenge },
                    end2,
                ),
            },
        }
    } else if tag == 5 {
        match take_sig_chunk(bytes, 4) {
            SigChunk::Missing => DecodeResult::Incomplete,
            SigChunk::BadLen => DecodeResult::Malformed(FrameFault::WrongLength),
            SigChunk::Sig(signed_challenge, end1) => match take_text_chunk(bytes, end1) {
                TextChunk::Missing => DecodeResult::Incomplete,
                TextChunk::Invalid => DecodeResult::Malformed(FrameFault::InvalidText),
                TextChunk::Text(credential_id, end2) => DecodeResult::Complete(
                    Command::ChallengeResponse { signed_challenge, credential_id },
                    end2,
                ),
            },
        }
    } else if tag == 6 {
        match take_text_chunk(bytes, 4) {
            TextChunk::Missing => DecodeResult::Incomplete,
            TextChunk::Invalid => DecodeResult::Malformed(FrameFault::InvalidText),
            TextChunk::Text(text, end) => DecodeResult::Complete(Command::TextMessage(text), end),
        }
    } else if tag == 7 {
        DecodeResult::Complete(Command::NoMessage, 4)
    } else {
        DecodeResult::Malformed(FrameFault::UnknownTag)
    }
}

/// Appends every byte of `data` to `out`.
fn push_all(out: &mut Vec<u8>, data: &[u8])
    ensures
        final(out)@ == old(out)@ + data@,
{
    let mut i: usize = 0;
    while i < data.len()
        invariant
            i <= data@.len(),
            out@ == old(out)@ + data@.take(i as int),
        decreases data@.len() - i,
    {
        let b = *vstd::slice::slice_index_get(data, i);
        out.push(b);
        i = i + 1;
        proof {
            assert(data@.take(i as int) =~= data@.take(i - 1) + seq![data@[i - 1]]);
        }
    }
    proof {
        assert(data@.take(data@.len() as int) =~= data@);
    }
}

/// Appends one length-prefixed field to `out`.
fn push_chunk(out: &mut Vec<u8>, data: &[u8])
    ensures
        final(out)@ == old(out)@ + chunk_bytes(data@),
        data@.len() <= u64::MAX,
{
    let n = data.len();
    let mut prefix = u64_to_le_bytes(n as u64);
    out.append(&mut prefix);
    push_all(out, data);
    proof {
        assert(out@ =~= old(out)@ + chunk_bytes(data@));
    }
}

/// Encodes one message as its frame. Total and deterministic.
pub fn encode(m: &Command) -> (r: Vec<u8>)
    ensures
        r@ == spec_encoding(m@),
        m.wf() ==> encodable(m@),
        r@.len() >= 4,
{
    proof {
        lemma_auto_spec_u32_to_from_le_bytes();
    }
    let mut out: Vec<u8>;
    match m {
        Command::NewUserBegin { username } => {
            out = u32_to_le_bytes(0);
            push_chunk(&mut out, username.as_str().as_bytes());
        },
        Command::CertRequest { server, challenge } => {
            out = u32_to_le_bytes(1);
            push_chunk(&mut out, server.as_str().as_bytes());
            push_chunk(&mut out, challenge.as_slice());
        },
        Command::CertResponse { credential_id, signed_challenge, pub_certificate } => {
            out = u32_to_le_bytes(2);
            push_chunk(&mut out, credential_id.as_str().as_bytes());
            push_chunk(&mut out, signed_challenge.bytes.as_slice());
            push_chunk(&mut out, pub_certificate.as_slice());
        },
        Command::AuthBegin { username } => {
            out = u32_to_le_bytes(3);
            push_chunk(&mut out, username.as_str().as_bytes());
        },
        Command::ChallengeRequest { credential_id, challenge } => {
            out = u32_to_le_bytes(4);
            push_chunk(&mut out, credential_id.as_str().as_bytes());
            push_chunk(&mut out, challenge.as_slice());
        },
        Command::ChallengeResponse { signed_challenge, credential_id } => {
            out = u32_to_le_bytes(5);
            push_chunk(&mut out, signed_challenge.bytes.as_slice());
            push_chunk(&mut out, credential_id.as_str().as_bytes());
        },
        Command::TextMessage(text) => {
            out = u32_to_le_bytes(6);
            push_chunk(&mut out, text.as_str().as_bytes());
        },
        Command::NoMessage => {
            out = u32_to_le_bytes(7);
            proof {
                assert(out@ =~= spec_encoding(m@));
            }
        },
    }
    proof {
        assert(out@ =~= spec_encoding(m@));
    }
    out
}

} // verus!

verus! {

/// Reading a length-prefixed field back from a buffer that holds it:
/// if the bytes at `pos` are `chunk_bytes(data)`, then for any cut `l`
/// of the buffer, the read is short of bytes before the field's last
/// byte and yields exactly `data` from there on.
proof fn lemma_chunk_at_prefix(b: Seq<u8>, pos: int, data: Seq<u8>, l: int)
    requires
        data.len() <= u64::MAX,
        0 <= pos,
        pos + 8 + data.len() <= b.len(),
        b.subrange(pos, pos + 8 + data.len()) == chunk_bytes(data),
        pos <= l <= b.len(),
    ensures
        l < pos + 8 + data.len() ==> spec_chunk_at(b.take(l), pos) is Short,
        l >= pos + 8 + data.len() ==> spec_chunk_at(b.take(l), pos) == SpecChunk::Chunk(
            data,
            pos + 8 + data.len(),
        ),
{
    lemma_auto_spec_u64_to_from_le_bytes();
    let p = b.take(l);
    if l < pos + 8 {
        assert(p.len() < pos + 8);
    } else {
        assert(p.subrange(pos, pos + 8) =~= b.subrange(pos, pos + 8));
        assert(b.subrange(pos, pos + 8) =~= chunk_bytes(data).subrange(0, 8));
        assert(chunk_bytes(data).subrange(0, 8) =~= spec_u64_to_le_bytes(data.len() as u64));
        assert(spec_u64_from_le_bytes(p.subrange(pos, pos + 8)) == data.len() as u64);
        if l >= pos + 8 + data.len() {
            assert(p.subrange(pos + 8, pos + 8 + data.len()) =~= b.subrange(
                pos + 8,
                pos + 8 + data.len(),
            ));
            assert(spec_u64_to_le_bytes(data.len() as u64).len() == 8);
            assert forall|i: int| 0 <= i < data.len() implies b[pos + 8 + i] == data[i] by {
                assert(b.subrange(pos, pos + 8 + data.len())[8 + i] == chunk_bytes(data)[8 + i]);
            }
            assert(b.subrange(pos + 8, pos + 8 + data.len()) =~= data);
        }
    }
}

/// Reading a length-prefixed field back from a buffer that holds it
/// whole yields exactly the field.
proof fn lemma_chunk_at_concat(b: Seq<u8>, pos: int, data: Seq<u8>)
    requires
        data.len() <= u64::MAX,
        0 <= pos,
        pos + 8 + data.len() <= b.len(),
        b.subrange(pos, pos + 8 + data.len()) == chunk_bytes(data),
    ensures
        spec_chunk_at(b, pos) == SpecChunk::Chunk(data, pos + 8 + data.len()),
{
    lemma_chunk_at_prefix(b, pos, data, b.len() as int);
    assert(b.take(b.len() as int) =~= b);
}

/// Round trip, with anything at all after the frame: decoding a buffer
/// that begins with the encoding of a message yields exactly that
/// message, and consumes exactly the encoding's length.
pub proof fn lemma_decode_of_encoding(m: CommandModel, rest: Seq<u8>)
    requires
        encodable(m),
    ensures
        spec_decode(spec_encoding(m) + rest) == SpecDecode::Complete(
            m,
            spec_encoding(m).len() as int,
        ),
{
    lemma_auto_spec_u32_to_from_le_bytes();
    lemma_auto_spec_u64_to_from_le_bytes();
    let enc = spec_encoding(m);
    let b = enc + rest;
    let tagb = spec_u32_to_le_bytes(spec_tag(m));
    assert(b.subrange(0, 4) =~= tagb);
    match m {
        CommandModel::NewUserBegin { username } => {
            let data = encode_utf8(username);
            let e1: int = 12 + data.len() as int;
            assert(b.subrange(4, e1) =~= chunk_bytes(data));
            lemma_chunk_at_concat(b, 4, data);
            vstd::utf8::encode_utf8_valid_utf8(username);
            vstd::utf8::encode_utf8_decode_utf8(username);
            assert(enc.len() == e1);
        },
        CommandModel::CertRequest { server, challenge } => {
            let d1 = encode_utf8(server);
            let e1: int = 12 + d1.len() as int;
            let e2: int = e1 + 8 + challenge.len();
            assert(b.subrange(4, e1) =~= chunk_bytes(d1));
            lemma_chunk_at_concat(b, 4, d1);
            vstd::utf8::encode_utf8_valid_utf8(server);
            vstd::utf8::encode_utf8_decode_utf8(server);
            assert(b.subrange(e1, e2) =~= chunk_bytes(challenge));
            lemma_chunk_at_concat(b, e1, challenge);
            assert(enc.len() == e2);
        },
        CommandModel::CertResponse { credential_id, signed_challenge, pub_certificate } => {
            let d1 = encode_utf8(credential_id);
            let e1: int = 12 + d1.len() as int;
            let e2: int = e1 + 8 + signed_challenge.len();
            let e3: int = e2 + 8 + pub_certificate.len();
            assert(b.subrange(4, e1) =~= chunk_bytes(d1));
            lemma_chunk_at_concat(b, 4, d1);
            vstd::utf8::encode_utf8_valid_utf8(credential_id);
            vstd::utf8::encode_utf8_decode_utf8(credential_id);
            assert(b.subrange(e1, e2) =~= chunk_bytes(signed_challenge));
            lemma_chunk_at_concat(b, e1, signed_challenge);
            assert(b.subrange(e2, e3) =~= chunk_bytes(pub_certificate));
            lemma_chunk_at_concat(b, e2, pub_certificate);
            assert(enc.len() == e3);
        },
        CommandModel::AuthBegin { username } => {
            let data = encode_utf8(username);
            let e1: int = 12 + data.len() as int;
            assert(b.subrange(4, e1) =~= chunk_bytes(data));
            lemma_chunk_at_concat(b, 4, data);
            vstd::utf8::encode_utf8_valid_utf8(username);
            vstd::utf8::encode_utf8_decode_utf8(username);
            assert(enc.len() == e1);
        },
        CommandModel::ChallengeRequest { credential_id, challenge } => {
            let d1 = encode_utf8(credential_id);
            let e1: int = 12 + d1.len() as int;
            let e2: int = e1 + 8 + challenge.len();
            assert(b.subrange(4, e1) =~= chunk_bytes(d1));
            lemma_chunk_at_concat(b, 4, d1);
            vstd::utf8::encode_utf8_valid_utf8(credential_id);
            vstd::utf8::encode_utf8_decode_utf8(credential_id);
            assert(b.subrange(e1, e2) =~= chunk_bytes(challenge));
            lemma_chunk_at_concat(b, e1, challenge);
            assert(enc.len() == e2);
        },
        CommandModel::ChallengeResponse { signed_challenge, credential_id } => {
            let d2 = encode_utf8(credential_id);
            let e1: int = 12 + signed_challenge.len() as int;
            let e2: int = e1 + 8 + d2.len();
            assert(b.subrange(4, e1) =~= chunk_bytes(signed_challenge));
            lemma_chunk_at_concat(b, 4, signed_challenge);
            assert(b.subrange(e1, e2) =~= chunk_bytes(d2));
            lemma_chunk_at_concat(b, e1, d2);
            vstd::utf8::encode_utf8_valid_utf8(credential_id);
            vstd::utf8::encode_utf8_decode_utf8(credential_id);
            assert(enc.len() == e2);
        },
        CommandModel::TextMessage(text) => {
            let data = encode_utf8(text);
            let e1: int = 12 + data.len() as int;
            assert(b.subrange(4, e1) =~= chunk_bytes(data));
            lemma_chunk_at_concat(b, 4, data);
            vstd::utf8::encode_utf8_valid_utf8(text);
            vstd::utf8::encode_utf8_decode_utf8(text);
            assert(enc.len() == e1);
        },
        CommandModel::NoMessage => {
            assert(enc.len() == 4);
        },
    }
}

/// Round trip: decoding the encoding of a message yields exactly that
/// message, consuming the whole buffer.
pub proof fn lemma_round_trip(m: CommandModel)
    requires
        encodable(m),
    ensures
        spec_decode(spec_encoding(m)) == SpecDecode::Complete(m, spec_encoding(m).len() as int),
{
    lemma_decode_of_encoding(m, Seq::empty());
    assert(spec_encoding(m) + Seq::<u8>::empty() =~= spec_encoding(m));
}

/// Incremental delivery: every proper prefix of a frame decodes as
/// `Incomplete` - never as some other message, never as a fault.
pub proof fn lemma_prefix_incomplete(m: CommandModel, l: int)
    requires
        encodable(m),
        0 <= l < spec_encoding(m).len(),
    ensures
        spec_decode(spec_encoding(m).take(l)) is Incomplete,
{
    lemma_auto_spec_u32_to_from_le_bytes();
    lemma_auto_spec_u64_to_from_le_bytes();
    let enc = spec_encoding(m);
    let p = enc.take(l);
    let tagb = spec_u32_to_le_bytes(spec_tag(m));
    if l < 4 {
        assert(p.len() < 4);
    } else {
        assert(p.subrange(0, 4) =~= enc.subrange(0, 4));
        assert(enc.subrange(0, 4) =~= tagb);
        match m {
            CommandModel::NewUserBegin { username } => {
                let data = encode_utf8(username);
                assert(enc.subrange(4, 12 + data.len() as int) =~= chunk_bytes(data));
                lemma_chunk_at_prefix(enc, 4, data, l);
                assert(enc.len() == 12 + data.len());
            },
            CommandModel::CertRequest { server, challenge } => {
                let d1 = encode_utf8(server);
                let e1: int = 12 + d1.len() as int;
                assert(enc.subrange(4, e1) =~= chunk_bytes(d1));
                lemma_chunk_at_prefix(enc, 4, d1, l);
                if l >= e1 {
                    vstd::utf8::encode_utf8_valid_utf8(server);
                    assert(enc.subrange(e1, e1 + 8 + challenge.len()) =~= chunk_bytes(challenge));
                    lemma_chunk_at_prefix(enc, e1, challenge, l);
                    assert(enc.len() == e1 + 8 + challenge.len());
                }
            },
            CommandModel::CertResponse { credential_id, signed_challenge, pub_certificate } => {
                let d1 = encode_utf8(credential_id);
                let e1: int = 12 + d1.len() as int;
                let e2: int = e1 + 8 + signed_challenge.len();
                assert(enc.subrange(4, e1) =~= chunk_bytes(d1));
                lemma_chunk_at_prefix(enc, 4, d1, l);
                if l >= e1 {
                    vstd::utf8::encode_utf8_valid_utf8(credential_id);
                    assert(enc.subrange(e1, e2) =~= chunk_bytes(signed_challenge));
                    lemma_chunk_at_prefix(enc, e1, signed_challenge, l);
                    if l >= e2 {
                        assert(enc.subrange(e2, e2 + 8 + pub_certificate.len()) =~= chunk_bytes(
                            pub_certificate,
                        ));
                        lemma_chunk_at_prefix(enc, e2, pub_certificate, l);
                        assert(enc.len() == e2 + 8 + pub_certificate.len());
                    }
                }
            },
            CommandModel::AuthBegin { username } => {
                let data = encode_utf8(username);
                assert(enc.subrange(4, 12 + data.len() as int) =~= chunk_bytes(data));
                lemma_chunk_at_prefix(enc, 4, data, l);
                assert(enc.len() == 12 + data.len());
            },
            CommandModel::ChallengeRequest { credential_id, challenge } => {
                let d1 = encode_utf8(credential_id);
                let e1: int = 12 + d1.len() as int;
                assert(enc.subrange(4, e1) =~= chunk_bytes(d1));
                lemma_chunk_at_prefix(enc, 4, d1, l);
                if l >= e1 {
                    vstd::utf8::encode_utf8_valid_utf8(credential_id);
                    assert(enc.subrange(e1, e1 + 8 + challenge.len()) =~= chunk_bytes(challenge));
                    lemma_chunk_at_prefix(enc, e1, challenge, l);
                    assert(enc.len() == e1 + 8 + challenge.len());
                }
            },
            CommandModel::ChallengeResponse { signed_challenge, credential_id } => {
                let d2 = encode_utf8(credential_id);
                let e1: int = 12 + signed_challenge.len() as int;
                assert(enc.subrange(4, e1) =~= chunk_bytes(signed_challenge));
                lemma_chunk_at_prefix(enc, 4, signed_challenge, l);
                if l >= e1 {
                    assert(enc.subrange(e1, e1 + 8 + d2.len()) =~= chunk_bytes(d2));
                    lemma_chunk_at_prefix(enc, e1, d2, l);
                    assert(enc.len() == e1 + 8 + d2.len());
                }
            },
            CommandModel::TextMessage(text) => {
                let data = encode_utf8(text);
                assert(enc.subrange(4, 12 + data.len() as int) =~= chunk_bytes(data));
                lemma_chunk_at_prefix(enc, 4, data, l);
                assert(enc.len() == 12 + data.len());
            },
            CommandModel::NoMessage => {
                assert(enc.len() == 4);
            },
        }
    }
}

/// Multi-frame buffer: two frames packed back to back decode in order,
/// each consuming exactly its own length, and together the whole buffer.
pub proof fn lemma_back_to_back(m1: CommandModel, m2: CommandModel)
    requires
        encodable(m1),
        encodable(m2),
    ensures
        ({
            let b = spec_encoding(m1) + spec_encoding(m2);
            let n1 = spec_encoding(m1).len() as int;
            let n2 = spec_encoding(m2).len() as int;
            &&& spec_decode(b) == SpecDecode::Complete(m1, n1)
            &&& spec_decode(b.skip(n1)) == SpecDecode::Complete(m2, n2)
            &&& n1 + n2 == b.len()
        }),
{
    let b = spec_encoding(m1) + spec_encoding(m2);
    let n1 = spec_encoding(m1).len() as int;
    lemma_decode_of_encoding(m1, spec_encoding(m2));
    assert(b.skip(n1) =~= spec_encoding(m2));
    lemma_round_trip(m2);
}

} // verus!

verus! {

/// The bytes delivered by a sequence of reads, in order.
pub open spec fn concat_of(chunks: Seq<Seq<u8>>) -> Seq<u8>
    decreases chunks.len(),
{
    if chunks.len() == 0 {
        Seq::empty()
    } else {
        concat_of(chunks.drop_last()) + chunks.last()
    }
}

/// After any number of whole reads, the bytes received so far are a
/// prefix of everything the reads deliver.
proof fn lemma_concat_of_take(chunks: Seq<Seq<u8>>, j: int)
    requires
        0 <= j <= chunks.len(),
    ensures
        concat_of(chunks.take(j)).len() <= concat_of(chunks).len(),
        concat_of(chunks.take(j)) == concat_of(chunks).take(
            concat_of(chunks.take(j)).len() as int,
        ),
    decreases chunks.len() - j,
{
    if j == chunks.len() {
        assert(chunks.take(j) =~= chunks);
        assert(concat_of(chunks).take(concat_of(chunks).len() as int) =~= concat_of(chunks));
    } else {
        lemma_concat_of_take(chunks, j + 1);
        let a = concat_of(chunks.take(j));
        let b = concat_of(chunks.take(j + 1));
        let c = concat_of(chunks);
        assert(chunks.take(j + 1).drop_last() =~= chunks.take(j));
        assert(b == a + chunks[j]);
        assert(a == b.take(a.len() as int)) by {
            assert(b.take(a.len() as int) =~= a);
        }
        assert(a == c.take(a.len() as int)) by {
            assert(c.take(b.len() as int).take(a.len() as int) =~= c.take(a.len() as int));
        }
    }
}

/// Incremental delivery is independent of chunking: however a stream
/// splits one frame into successive reads, after every read short of the
/// last the bytes decode `Incomplete`, and the read that delivers the
/// frame's last byte decodes exactly the frame's message - no byte
/// beyond it is needed.
pub proof fn lemma_chunking_independent(m: CommandModel, chunks: Seq<Seq<u8>>, j: int)
    requires
        encodable(m),
        concat_of(chunks) == spec_encoding(m),
        0 <= j <= chunks.len(),
    ensures
        concat_of(chunks.take(j)).len() < spec_encoding(m).len() ==> spec_decode(
            concat_of(chunks.take(j)),
        ) is Incomplete,
        concat_of(chunks.take(j)).len() == spec_encoding(m).len() ==> spec_decode(
            concat_of(chunks.take(j)),
        ) == SpecDecode::Complete(m, spec_encoding(m).len() as int),
{
    lemma_concat_of_take(chunks, j);
    let got = concat_of(chunks.take(j));
    if got.len() < spec_encoding(m).len() {
        lemma_prefix_incomplete(m, got.len() as int);
    } else {
        assert(spec_encoding(m).take(spec_encoding(m).len() as int) =~= spec_encoding(m));
        lemma_round_trip(m);
    }
}

} // verus!
