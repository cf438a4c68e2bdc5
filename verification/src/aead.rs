//! The symmetric layer that consumes a shared secret: session-key
//! derivation through the extendable-output hash, and authenticated
//! encryption with a 256-bit key and a 96-bit nonce.
use vstd::prelude::*;

verus! {

use crate::KemError;
use crate::xof::{shake256, shake256_of};

/// The ciphertext-with-tag produced by the cipher for a key, nonce and
/// plaintext: a pure function of the three inputs.
pub uninterp spec fn gcm_seal(key: Seq<u8>, nonce: Seq<u8>, pt: Seq<u8>) -> Seq<u8>;

/// Relies on aes_gcm::Aes256Gcm through aead::Aead::encrypt: the output
/// is the ciphertext followed by the 16-byte tag, a deterministic
/// function of key, nonce and plaintext; the call succeeds whenever the
/// plaintext is no longer than 2^36 bytes.
#[verifier::external_body]
fn gcm_encrypt(key: &Vec<u8>, nonce: &Vec<u8>, pt: &Vec<u8>) -> (r: Option<Vec<u8>>)
    requires
        key@.len() == 32,
        nonce@.len() == 12,
    ensures
        r matches Some(c) ==> c@ == gcm_seal(key@, nonce@, pt@) && c@.len() == pt@.len() + 16,
        pt@.len() <= 0x1000000000 ==> r is Some,
{
    let cipher = <aes_gcm::Aes256Gcm as aes_gcm::aead::KeyInit>::new_from_slice(key.as_slice())
        .ok()?;
    let nonce = aes_gcm::Nonce::from_slice(nonce.as_slice());
    aes_gcm::aead::Aead::encrypt(&cipher, nonce, pt.as_slice()).ok()
}

/// Relies on aes_gcm::Aes256Gcm through aead::Aead::decrypt: decryption
/// succeeds exactly on the cipher's own output for the same key and
/// nonce, recovering the plaintext it was produced from, and fails
/// closed on any other input.
#[verifier::external_body]
fn gcm_decrypt(key: &Vec<u8>, nonce: &Vec<u8>, ct: &Vec<u8>) -> (r: Option<Vec<u8>>)
    requires
        key@.len() == 32,
        nonce@.len() == 12,
    ensures
        r matches Some(p) ==> ct@ == gcm_seal(key@, nonce@, p@),
        forall|p: Seq<u8>|
            ct@ == gcm_seal(key@, nonce@, p) ==> r is Some && r.unwrap()@ == p,
{
    let cipher = <aes_gcm::Aes256Gcm as aes_gcm::aead::KeyInit>::new_from_slice(key.as_slice())
        .ok()?;
    let nonce = aes_gcm::Nonce::from_slice(nonce.as_slice());
    aes_gcm::aead::Aead::decrypt(&cipher, nonce, ct.as_slice()).ok()
}

/// Derives the 32-byte session key from a shared secret by reading the
/// extendable-output hash of the secret.
pub fn derive_aes_key(shared_secret: &Vec<u8>) -> (r: Vec<u8>)
    ensures
        r@ == shake256_of(shared_secret@, 32),
        r@.len() == 32,
{
    shake256(shared_secret, 32)
}

/// Authenticated encryption of a message under a session key and a
/// fresh nonce; the result carries the tag and decrypts only as a whole.
pub fn seal_message(key: &Vec<u8>, nonce: &Vec<u8>, pt: &Vec<u8>) -> (r: Result<
    Vec<u8>,
    KemError,
>)
    requires
        key@.len() == 32,
        nonce@.len() == 12,
        pt@.len() <= 0x1000000000,
    ensures
        r is Ok,
        r matches Ok(c) ==> c@ == gcm_seal(key@, nonce@, pt@) && c@.len() == pt@.len() + 16,
{
    match gcm_encrypt(key, nonce, pt) {
        Some(c) => Ok(c),
        None => Err(KemError::Internal),
    }
}

/// Authenticated decryption: succeeds exactly on an untampered sealed
/// message for the same key and nonce, returning the sealed plaintext,
/// and fails with an authentication error on any altered input.
pub fn open_message(key: &Vec<u8>, nonce: &Vec<u8>, ct: &Vec<u8>) -> (r: Result<Vec<u8>, KemError>)
    requires
        key@.len() == 32,
        nonce@.len() == 12,
    ensures
        r matches Ok(p) ==> ct@ == gcm_seal(key@, nonce@, p@),
        forall|p: Seq<u8>|
            ct@ == gcm_seal(key@, nonce@, p) ==> r is Ok && r.unwrap()@ == p,
        r matches Err(e) ==> e == KemError::Authentication,
{
    match gcm_decrypt(key, nonce, ct) {
        Some(p) => Ok(p),
        None => Err(KemError::Authentication),
    }
}

} // verus!
