use vstd::prelude::*;

use chacha20poly1305::aead::Aead;
use chacha20poly1305::{ChaCha8Poly1305, Key, KeyInit, Nonce};

use crate::{CRYPT_SIZE, NONCE_SIZE};

verus! {

/// Ciphertext followed by the tag that ChaCha8-Poly1305 produces for
/// `plain` under `key` and `nonce`, with no associated data.
pub uninterp spec fn chacha8_sealed(key: Seq<u8>, nonce: Seq<u8>, plain: Seq<u8>) -> Seq<u8>;

/// What ChaCha8-Poly1305 decryption of `data` (ciphertext and tag) under
/// `key` and `nonce` gives: the plaintext, or nothing when the tag does not
/// authenticate.
pub uninterp spec fn chacha8_opened(key: Seq<u8>, nonce: Seq<u8>, data: Seq<u8>) -> Option<Seq<u8>>;

/// The bytes an optional buffer holds.
pub open spec fn bytes_of(v: Option<Vec<u8>>) -> Option<Seq<u8>> {
    match v {
        Some(b) => Some(b@),
        None => None,
    }
}

/// Relies on `Aead::encrypt` of chacha20poly1305's `ChaCha8Poly1305`: the
/// ciphertext has the plaintext's length and is followed by a 16-byte tag.
/// The cipher refuses only inputs of 2^32 blocks or more.
#[verifier::external_body]
pub(crate) fn aead_seal(key: &[u8; 32], nonce: &[u8; NONCE_SIZE], plain: &[u8]) -> (r: Option<Vec<u8>>)
    requires
        plain@.len() <= 0xffff,
    ensures
        r is Some,
        r matches Some(c) ==> c@ == chacha8_sealed(key@, nonce@, plain@) && c@.len() == plain@.len()
            + CRYPT_SIZE,
{
    let cipher = ChaCha8Poly1305::new(&Key::from(*key));
    cipher.encrypt(&Nonce::from(*nonce), plain).ok()
}

/// Relies on `Aead::decrypt` of chacha20poly1305's `ChaCha8Poly1305`: it
/// checks the trailing 16-byte tag and gives back the plaintext, which is the
/// one `Aead::encrypt` sealed into `data`.
#[verifier::external_body]
pub(crate) fn aead_open(key: &[u8; 32], nonce: &[u8; NONCE_SIZE], data: &[u8]) -> (r: Option<Vec<u8>>)
    ensures
        bytes_of(r) == chacha8_opened(key@, nonce@, data@),
        r matches Some(p) ==> p@.len() + CRYPT_SIZE == data@.len(),
        forall|p: Seq<u8>| #[trigger]
            chacha8_sealed(key@, nonce@, p) == data@ ==> bytes_of(r) == Some(p),
{
    let cipher = ChaCha8Poly1305::new(&Key::from(*key));
    cipher.decrypt(&Nonce::from(*nonce), data).ok()
}

} // verus!
