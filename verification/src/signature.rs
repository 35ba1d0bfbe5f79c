//! The credential engine: Ed25519 keypairs, single-use random challenges,
//! signing and verification, and the fixed-length byte forms of public keys.
//!
//! Keys and signatures are carried as their byte forms, so that the
//! handshake logic can be verified over plain values. The cryptographic
//! operations themselves are performed by `ed25519_dalek` behind trusted
//! wrappers; what each wrapper relies on is stated in its doc comment.

use crate::errors::ProtoError;
use crate::CHALLENGE_LEN;
use crate::PUBLIC_KEY_LEN;
use crate::SIGNATURE_LEN;
use ed25519_dalek::Signer;
use ed25519_dalek::Verifier;
use rand::RngCore;
use vstd::prelude::*;

verus! {

/// A private Ed25519 signing key, held as its 32 secret bytes.
#[derive(Clone, Debug, PartialEq)]
pub struct SigningKey {
    pub bytes: Vec<u8>,
}

/// A public Ed25519 verifying key, held as its 32-byte encoding.
#[derive(Clone, Debug, PartialEq)]
pub struct VerifyingKey {
    pub bytes: Vec<u8>,
}

/// An Ed25519 signature, held as its 64-byte encoding.
#[derive(Clone, Debug, PartialEq)]
pub struct Signature {
    pub bytes: Vec<u8>,
}

impl View for SigningKey {
    type V = Seq<u8>;

    open spec fn view(&self) -> Seq<u8> {
        self.bytes@
    }
}

impl View for VerifyingKey {
    type V = Seq<u8>;

    open spec fn view(&self) -> Seq<u8> {
        self.bytes@
    }
}

impl View for Signature {
    type V = Seq<u8>;

    open spec fn view(&self) -> Seq<u8> {
        self.bytes@
    }
}

impl SigningKey {
    /// A signing key is exactly 32 bytes.
    pub open spec fn wf(self) -> bool {
        self@.len() == PUBLIC_KEY_LEN
    }
}

impl VerifyingKey {
    /// A verifying key is exactly 32 bytes.
    pub open spec fn wf(self) -> bool {
        self@.len() == PUBLIC_KEY_LEN
    }
}

impl Signature {
    /// A signature is exactly 64 bytes.
    pub open spec fn wf(self) -> bool {
        self@.len() == SIGNATURE_LEN
    }
}

/// The byte form of the public key derived from a signing key's bytes.
pub uninterp spec fn vk_of(sk: Seq<u8>) -> Seq<u8>;

/// The Ed25519 signature over a message under a signing key, as bytes.
/// Ed25519 signing is deterministic, so this is a function of the two.
pub uninterp spec fn sig_bytes_of(sk: Seq<u8>, msg: Seq<u8>) -> Seq<u8>;

/// Whether Ed25519 verification accepts a signature over a message under
/// the 32-byte public key encoding given.
pub uninterp spec fn sig_valid(vk: Seq<u8>, msg: Seq<u8>, sig: Seq<u8>) -> bool;

/// Whether 32 bytes are the encoding of a valid Ed25519 public key.
pub uninterp spec fn key_valid(vk: Seq<u8>) -> bool;

/// Relies on `rand::rngs::OsRng` (`RngCore::fill_bytes`): the buffer is
/// filled in place from the operating system's secure source, so its
/// length is unchanged. Nothing is assumed of the bytes themselves.
#[verifier::external_body]
fn random_bytes(len: usize) -> (r: Vec<u8>)
    ensures
        r@.len() == len,
{
    let mut buf = vec![0u8; len];
    rand::rngs::OsRng.fill_bytes(&mut buf);
    buf
}

/// Relies on `ed25519_dalek::SigningKey::generate`: a fresh random key
/// whose byte form (`to_bytes`) is 32 bytes. Nothing is assumed of the
/// bytes themselves.
#[verifier::external_body]
pub fn make_new_key() -> (k: SigningKey)
    ensures
        k.wf(),
{
    let mut csprng = rand::rngs::OsRng;
    let key = ed25519_dalek::SigningKey::generate(&mut csprng);
    SigningKey { bytes: key.to_bytes().to_vec() }
}

impl SigningKey {
    /// Relies on `ed25519_dalek::SigningKey::verifying_key`: the public key
    /// is a function of the signing key alone; its `to_bytes` form is 32
    /// bytes and round-trips through `VerifyingKey::from_bytes`.
    #[verifier::external_body]
    pub fn verifying_key(&self) -> (vk: VerifyingKey)
        requires
            self.wf(),
        ensures
            vk.wf(),
            vk@ == vk_of(self@),
            key_valid(vk@),
    {
        let arr: [u8; 32] = self.bytes.as_slice().try_into().unwrap();
        let key = ed25519_dalek::SigningKey::from_bytes(&arr);
        VerifyingKey { bytes: key.verifying_key().to_bytes().to_vec() }
    }
}

/// Relies on `ed25519_dalek`'s `Signer::sign` (RFC 8032 Ed25519): signing
/// is deterministic in the key and message, the signature's byte form is
/// 64 bytes, and a signature so produced verifies under the public key
/// derived from the same signing key.
#[verifier::external_body]
pub fn sign_challenge(key: &SigningKey, challenge: &[u8]) -> (sig: Signature)
    requires
        key.wf(),
    ensures
        sig.wf(),
        sig@ == sig_bytes_of(key@, challenge@),
        sig_valid(vk_of(key@), challenge@, sig@),
{
    let arr: [u8; 32] = key.bytes.as_slice().try_into().unwrap();
    let sk = ed25519_dalek::SigningKey::from_bytes(&arr);
    Signature { bytes: sk.sign(challenge).to_bytes().to_vec() }
}

/// Relies on `ed25519_dalek`'s `Verifier::verify`, together with
/// `VerifyingKey::from_bytes` and `Signature::from_bytes`: acceptance is a
/// function of the key, message and signature bytes alone. A key whose 32
/// bytes decode to no valid curve point accepts nothing.
#[verifier::external_body]
pub fn validate_signature(key: &VerifyingKey, challenge: &[u8], signature: &Signature) -> (r: bool)
    requires
        key.wf(),
        signature.wf(),
    ensures
        r == sig_valid(key@, challenge@, signature@),
{
    let karr: [u8; 32] = key.bytes.as_slice().try_into().unwrap();
    let sarr: [u8; 64] = signature.bytes.as_slice().try_into().unwrap();
    match ed25519_dalek::VerifyingKey::from_bytes(&karr) {
        Ok(vk) => vk.verify(challenge, &ed25519_dalek::Signature::from_bytes(&sarr)).is_ok(),
        Err(_) => false,
    }
}

/// Relies on `ed25519_dalek::VerifyingKey::from_bytes`: it accepts exactly
/// the 32-byte encodings of valid curve points, and `to_bytes` on the
/// decoded key returns the same 32 bytes.
#[verifier::external_body]
fn check_public_key(bytes: &[u8]) -> (r: Option<VerifyingKey>)
    requires
        bytes@.len() == PUBLIC_KEY_LEN,
    ensures
        r is Some <==> key_valid(bytes@),
        r matches Some(k) ==> k@ == bytes@ && k.wf(),
{
    let arr: [u8; 32] = bytes.try_into().unwrap();
    match ed25519_dalek::VerifyingKey::from_bytes(&arr) {
        Ok(key) => Some(VerifyingKey { bytes: key.to_bytes().to_vec() }),
        Err(_) => None,
    }
}

/// A fresh single-use challenge: 128 bytes of secure randomness.
pub fn new_challenge() -> (c: Vec<u8>)
    ensures
        c@.len() == CHALLENGE_LEN,
{
    random_bytes(CHALLENGE_LEN)
}

/// Relies on `rand::rngs::OsRng` (`RngCore::next_u32`): a random value
/// from the operating system's secure source. Nothing is assumed of it.
#[verifier::external_body]
pub fn new_key_id() -> u32 {
    rand::rngs::OsRng.next_u32()
}

/// The fixed-length byte form of a public key: its 32 bytes, unchanged.
pub fn encode_public_key(key: &VerifyingKey) -> (r: Vec<u8>)
    ensures
        r@ == key@,
{
    vstd::slice::slice_to_vec(key.bytes.as_slice())
}

/// Decodes the fixed-length byte form of a public key. Succeeds exactly
/// when the input is 32 bytes that encode a valid curve point; anything
/// else is a `CredentialError`, never a panic.
pub fn decode_public_key(bytes: &[u8]) -> (r: Result<VerifyingKey, ProtoError>)
    ensures
        r matches Ok(k) ==> bytes@.len() == PUBLIC_KEY_LEN && key_valid(bytes@) && k@ == bytes@
            && k.wf(),
        r matches Err(e) ==> e == ProtoError::CredentialError && !(bytes@.len() == PUBLIC_KEY_LEN
            && key_valid(bytes@)),
{
    if bytes.len() != PUBLIC_KEY_LEN {
        return Err(ProtoError::CredentialError);
    }
    match check_public_key(bytes) {
        Some(key) => Ok(key),
        None => Err(ProtoError::CredentialError),
    }
}

} // verus!
