use vstd::prelude::*;
use chacha20poly1305::aead::{Aead, KeyInit};
use rand::RngCore;

verus! {

/// The key that the key derivation gives for a passphrase and a salt.
pub uninterp spec fn derived_key_of(pass: Seq<u8>, salt: Seq<u8>) -> Seq<u8>;

/// The authenticated ciphertext of a message under a key and a nonce.
pub uninterp spec fn sealed_of(key: Seq<u8>, nonce: Seq<u8>, plain: Seq<u8>) -> Seq<u8>;

/// Messages shorter than this can be encrypted.
pub open spec fn cipher_limit() -> nat {
    274877906880
}

/// Relies on argon2's `Argon2::hash_password_into` with the default
/// parameters: a 32-byte key that depends on the passphrase and the salt
/// alone. It fails only for a passphrase over 0xFFFFFFFF bytes or a salt
/// under 8 bytes, which `requires` leaves out.
#[verifier::external_body]
pub(crate) fn derive_key(pass: &Vec<u8>, salt: &Vec<u8>) -> (r: Vec<u8>)
    requires
        pass@.len() <= 4294967295,
        8 <= salt@.len() <= 4294967295,
    ensures
        r@ == derived_key_of(pass@, salt@),
        r@.len() == 32,
{
    let mut out = vec![0u8; 32];
    match argon2::Argon2::default().hash_password_into(pass.as_slice(), salt.as_slice(), &mut out) {
        Ok(()) => out,
        Err(_) => Vec::new(),
    }
}

/// Relies on chacha20poly1305's `Aead::encrypt` without associated data:
/// the ciphertext depends on the key, the nonce and the message alone, and
/// encryption fails only for a message of `cipher_limit()` bytes or more.
#[verifier::external_body]
pub(crate) fn aead_seal(key: &Vec<u8>, nonce: &Vec<u8>, plain: &Vec<u8>) -> (r: Option<Vec<u8>>)
    requires
        key@.len() == 32,
        nonce@.len() == 12,
    ensures
        r matches Some(c) ==> c@ == sealed_of(key@, nonce@, plain@),
        plain@.len() < cipher_limit() ==> r is Some,
{
    let cipher = chacha20poly1305::ChaCha20Poly1305::new(chacha20poly1305::Key::from_slice(key.as_slice()));
    cipher.encrypt(chacha20poly1305::Nonce::from_slice(nonce.as_slice()), plain.as_slice()).ok()
}

/// Relies on chacha20poly1305's `Aead::decrypt` without associated data: it
/// succeeds exactly on the encryption of some message under the same key and
/// nonce, and then returns that message, which is the only one with that
/// encryption and is shorter than `cipher_limit()`.
#[verifier::external_body]
pub(crate) fn aead_open(key: &Vec<u8>, nonce: &Vec<u8>, sealed: &Vec<u8>) -> (r: Option<Vec<u8>>)
    requires
        key@.len() == 32,
        nonce@.len() == 12,
    ensures
        match r {
            Some(p) => p@.len() < cipher_limit() && sealed_of(key@, nonce@, p@) == sealed@ && forall|q: Seq<u8>|
                q.len() < cipher_limit() && #[trigger] sealed_of(key@, nonce@, q) == sealed@ ==> q == p@,
            None => forall|q: Seq<u8>|
                q.len() < cipher_limit() ==> #[trigger] sealed_of(key@, nonce@, q) != sealed@,
        },
{
    let cipher = chacha20poly1305::ChaCha20Poly1305::new(chacha20poly1305::Key::from_slice(key.as_slice()));
    cipher.decrypt(chacha20poly1305::Nonce::from_slice(nonce.as_slice()), sealed.as_slice()).ok()
}

/// Relies on rand's `OsRng::try_fill_bytes`: `n` bytes from the operating
/// system, or nothing when it cannot supply them.
#[verifier::external_body]
pub(crate) fn random_bytes(n: usize) -> (r: Option<Vec<u8>>)
    ensures
        r matches Some(v) ==> v@.len() == n,
{
    let mut v = vec![0u8; n];
    match rand::rngs::OsRng.try_fill_bytes(&mut v) {
        Ok(()) => Some(v),
        Err(_) => None,
    }
}

} // verus!
