//! A mutually authenticated session protocol over a secured byte stream:
//! a self-framing binary codec for protocol messages, an Ed25519-based
//! credential engine, and the client and server handshake state machines.

pub mod codec;
pub mod commands;
pub mod errors;
pub mod mut_buf;
pub mod session;
pub mod signature;

use vstd::prelude::*;

verus! {

/// Byte length of a challenge issued during the handshake.
pub const CHALLENGE_LEN: usize = 128;

/// Byte length of an encoded Ed25519 public key.
pub const PUBLIC_KEY_LEN: usize = 32;

/// Byte length of an Ed25519 signature.
pub const SIGNATURE_LEN: usize = 64;

} // verus!
