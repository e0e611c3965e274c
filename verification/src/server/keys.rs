//! The ED25519 public keys the server verifies clients' certificates with.
use ed25519_dalek::pkcs8::DecodePublicKey;
use sha2::Digest;

use vstd::prelude::*;
use vstd::utf8::*;

use crate::extensions::cert::{VerifyKey, CERT_TYPE_ED25519};
use crate::text::string_from_utf8;

verus! {

broadcast use vstd::utf8::group_utf8_lib;

/// The ED25519 public key a PEM document (a `PUBLIC KEY` block holding a
/// PKCS#8 SubjectPublicKeyInfo) holds, as `ed25519-dalek` reads it, or
/// `None` when it holds none.
pub uninterp spec fn ed25519_pem_public_key(pem: Seq<char>) -> Option<Seq<u8>>;

/// The SHA-256 digest of the data.
pub uninterp spec fn sha256(data: Seq<u8>) -> Seq<u8>;

/// `VerifyingKey::from_public_key_pem` (from `pkcs8::DecodePublicKey`),
/// giving the key's 32 bytes (`VerifyingKey::to_bytes`). What it accepts
/// and what it reads is named, not stated.
#[verifier::external_body]
fn dalek_public_key_from_pem(pem: &str) -> (r: Option<[u8; 32]>)
    ensures
        match ed25519_pem_public_key(pem@) {
            Some(k) => r matches Some(a) && a@ == k,
            None => r is None,
        },
{
    match ed25519_dalek::VerifyingKey::from_public_key_pem(pem) {
        Ok(key) => Some(key.to_bytes()),
        Err(_) => None,
    }
}

/// `sha2::Sha256::digest`: the digest is named, not stated.
#[verifier::external_body]
fn sha256_digest(data: &[u8]) -> (r: [u8; 32])
    ensures
        r@ == sha256(data@),
{
    sha2::Sha256::digest(data).into()
}

/// Why a key file could not be used.
#[derive(Clone, Copy, Debug, PartialEq, Eq, Structural)]
pub enum KeyFileError {
    /// The file is not UTF-8 text.
    NotText,
    /// The text is not a PEM ED25519 public key.
    NotPublicKey,
}

/// The verification key a PEM public key file holds: the key, and the
/// SHA-256 hash of its 32 bytes by which clients name it.
pub fn verify_key_from_pem_file(data: Vec<u8>) -> (r: Result<VerifyKey, KeyFileError>)
    ensures
        !valid_utf8(data@) ==> r == Err::<VerifyKey, KeyFileError>(KeyFileError::NotText),
        valid_utf8(data@) ==> match ed25519_pem_public_key(decode_utf8(data@)) {
            None => r == Err::<VerifyKey, KeyFileError>(KeyFileError::NotPublicKey),
            Some(k) => r matches Ok(v) && v.public_key@ == k && v.hash@ == sha256(k)
                && v.cert_type.bits == CERT_TYPE_ED25519,
        },
{
    let text = match string_from_utf8(data) {
        Some(t) => t,
        None => {
            return Err(KeyFileError::NotText);
        },
    };
    let key = match dalek_public_key_from_pem(text.as_str()) {
        Some(k) => k,
        None => {
            return Err(KeyFileError::NotPublicKey);
        },
    };
    let hash = sha256_digest(&key);
    Ok(VerifyKey::new_ed25519(key, hash))
}

} // verus!
