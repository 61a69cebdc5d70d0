//! Encryption of package contents (AES-256-GCM) and SHA-256 digests.

use vstd::prelude::*;
use vstd::string::StringExecFns;
use aes_gcm::aead::{Aead, KeyInit};
use sha2::Digest;
use rand::RngCore;
use crate::text::{copy_bytes, push_all_bytes, bytes_from, bytes_take, bytes_eq, utf8};

verus! {

/// Size of an AES-256 key in bytes.
pub const KEY_SIZE: usize = 32;

/// Size of a GCM nonce in bytes.
pub const NONCE_SIZE: usize = 12;

/// Why encryption or decryption failed.
#[derive(Debug, Clone, Copy, PartialEq, Eq, Structural)]
pub enum CryptoError {
    /// The key is not `KEY_SIZE` bytes long; the length it has.
    InvalidKeySize(usize),
    /// The ciphertext is shorter than a nonce.
    CiphertextTooShort,
    /// The cipher refused to encrypt.
    EncryptionFailed,
    /// The ciphertext does not authenticate under the key.
    DecryptionFailed,
}

impl CryptoError {
    /// The text shown for the error.
    pub fn message(&self) -> (r: String)
        ensures
            r@ == crypto_message(*self),
    {
        match self {
            CryptoError::InvalidKeySize(n) => {
                let digits = crate::text::decimal_chars(*n as u64);
                let d = crate::text::string_from_chars(digits.as_slice());
                let mut m = crate::text::lit("Invalid key size: expected 32 bytes, got ");
                m.append(d.as_str());
                m
            },
            CryptoError::CiphertextTooShort => crate::text::lit(
                "Ciphertext too short: must be at least 12 bytes",
            ),
            CryptoError::EncryptionFailed => crate::text::lit("Encryption failed: aead::Error"),
            CryptoError::DecryptionFailed => crate::text::lit("Decryption failed: aead::Error"),
        }
    }
}

/// The text shown for a cryptographic error.
pub open spec fn crypto_message(e: CryptoError) -> Seq<char> {
    match e {
        CryptoError::InvalidKeySize(n) => "Invalid key size: expected 32 bytes, got "@ + crate::text::decimal(
            n as nat,
        ),
        CryptoError::CiphertextTooShort => "Ciphertext too short: must be at least 12 bytes"@,
        CryptoError::EncryptionFailed => "Encryption failed: aead::Error"@,
        CryptoError::DecryptionFailed => "Decryption failed: aead::Error"@,
    }
}

/// What AES-256-GCM encryption gives for `plaintext` under `key` and
/// `nonce`: the ciphertext followed by the tag.
pub uninterp spec fn spec_aes_gcm_seal(key: Seq<u8>, nonce: Seq<u8>, plaintext: Seq<u8>) -> Option<Seq<u8>>;

/// What AES-256-GCM decryption gives for `ciphertext` under `key` and
/// `nonce`, if it authenticates.
pub uninterp spec fn spec_aes_gcm_open(key: Seq<u8>, nonce: Seq<u8>, ciphertext: Seq<u8>) -> Option<Seq<u8>>;

/// What SHA-256 gives for `data`.
pub uninterp spec fn spec_sha256(data: Seq<u8>) -> Seq<u8>;

/// The longest plaintext AES-GCM encrypts: 2^36 bytes (`P_MAX`).
pub open spec fn aead_max() -> nat {
    0x10_0000_0000
}

/// Encrypts with AES-256-GCM (`Aead::encrypt` of `Aes256Gcm`). It fails
/// only for a plaintext longer than `aead_max()`; what it gives is 16 bytes
/// longer than the plaintext and decrypts back to it under the same key and
/// nonce.
#[verifier::external_body]
fn aes_gcm_seal(key: &[u8], nonce: &[u8], plaintext: &[u8]) -> (r: Option<Vec<u8>>)
    requires
        key@.len() == KEY_SIZE,
        nonce@.len() == NONCE_SIZE,
    ensures
        r is Some <==> spec_aes_gcm_seal(key@, nonce@, plaintext@) is Some,
        plaintext@.len() <= aead_max() ==> r is Some,
        r matches Some(c) ==> spec_aes_gcm_seal(key@, nonce@, plaintext@) == Some(c@)
            && c@.len() == plaintext@.len() + 16 && spec_aes_gcm_open(key@, nonce@, c@) == Some(
            plaintext@,
        ),
{
    match aes_gcm::Aes256Gcm::new_from_slice(key) {
        Ok(cipher) => cipher.encrypt(aes_gcm::Nonce::from_slice(nonce), plaintext).ok(),
        Err(_) => None,
    }
}

/// Decrypts with AES-256-GCM (`Aead::decrypt` of `Aes256Gcm`); `None` when
/// the data does not authenticate. Which data fails (a changed byte, a
/// ciphertext made under another key) is left unsaid here: the cipher makes
/// such a forgery unlikely, not impossible.
#[verifier::external_body]
fn aes_gcm_open(key: &[u8], nonce: &[u8], ciphertext: &[u8]) -> (r: Option<Vec<u8>>)
    requires
        key@.len() == KEY_SIZE,
        nonce@.len() == NONCE_SIZE,
    ensures
        r is Some <==> spec_aes_gcm_open(key@, nonce@, ciphertext@) is Some,
        r matches Some(p) ==> spec_aes_gcm_open(key@, nonce@, ciphertext@) == Some(p@),
{
    match aes_gcm::Aes256Gcm::new_from_slice(key) {
        Ok(cipher) => cipher.decrypt(aes_gcm::Nonce::from_slice(nonce), ciphertext).ok(),
        Err(_) => None,
    }
}

/// The SHA-256 digest of `data` (`sha2::Sha256`).
#[verifier::external_body]
fn sha256(data: &[u8]) -> (r: [u8; 32])
    ensures
        r@ == spec_sha256(data@),
{
    let mut hasher = sha2::Sha256::new();
    hasher.update(data);
    hasher.finalize().into()
}

/// Fills `buf` with random bytes from the thread's generator
/// (`rand::rng().fill_bytes`). Which bytes is chance.
#[verifier::external_body]
fn fill_random(buf: &mut [u8])
    ensures
        final(buf)@.len() == old(buf)@.len(),
{
    rand::rng().fill_bytes(buf)
}

/// A fresh random key.
pub fn generate_key() -> (r: [u8; KEY_SIZE])
    ensures
        r@.len() == KEY_SIZE,
{
    let mut key = [0u8; KEY_SIZE];
    fill_random(&mut key);
    key
}

/// The key of a node: the SHA-256 digest of `pipernet-encryption-v1:`
/// followed by the node's peer ID.
pub fn derive_key_from_peer_id(peer_id: &str) -> (r: [u8; KEY_SIZE])
    ensures
        r@ == spec_sha256(
            vstd::utf8::encode_utf8("pipernet-encryption-v1:"@) + vstd::utf8::encode_utf8(peer_id@),
        ),
{
    let mut input = copy_bytes("pipernet-encryption-v1:".as_bytes());
    push_all_bytes(&mut input, peer_id.as_bytes());
    sha256(input.as_slice())
}

/// The key shared by the whole network for distributed packages.
pub fn get_network_key() -> (r: [u8; KEY_SIZE])
    ensures
        r@ == spec_sha256(
            vstd::utf8::encode_utf8("pipernet-network-key-v1:shared-encryption-for-distribution"@),
        ),
{
    sha256("pipernet-network-key-v1:shared-encryption-for-distribution".as_bytes())
}

/// What decrypting `ciphertext` (nonce, then sealed data) under `key` gives.
pub open spec fn decrypt_outcome(ciphertext: Seq<u8>, key: Seq<u8>) -> Result<Seq<u8>, CryptoError> {
    if key.len() != KEY_SIZE {
        Err(CryptoError::InvalidKeySize(key.len() as usize))
    } else if ciphertext.len() < NONCE_SIZE {
        Err(CryptoError::CiphertextTooShort)
    } else {
        match spec_aes_gcm_open(key, ciphertext.take(12), ciphertext.skip(12)) {
            Some(p) => Ok(p),
            None => Err(CryptoError::DecryptionFailed),
        }
    }
}

/// What encrypting `plaintext` under `key` with `nonce` gives: the nonce,
/// then the sealed data.
pub open spec fn encrypt_outcome(plaintext: Seq<u8>, key: Seq<u8>, nonce: Seq<u8>) -> Result<
    Seq<u8>,
    CryptoError,
> {
    if key.len() != KEY_SIZE {
        Err(CryptoError::InvalidKeySize(key.len() as usize))
    } else {
        match spec_aes_gcm_seal(key, nonce, plaintext) {
            Some(c) => Ok(nonce + c),
            None => Err(CryptoError::EncryptionFailed),
        }
    }
}

/// A byte result as a value.
pub open spec fn bytes_outcome(r: Result<Vec<u8>, CryptoError>) -> Result<Seq<u8>, CryptoError> {
    match r {
        Ok(v) => Ok(v@),
        Err(e) => Err(e),
    }
}

/// Encrypts `plaintext` under `key` with the given nonce: the output is the
/// nonce followed by the sealed data, and decrypts back to `plaintext`.
pub fn encrypt_with_nonce(plaintext: &[u8], key: &[u8], nonce: &[u8; NONCE_SIZE]) -> (r: Result<
    Vec<u8>,
    CryptoError,
>)
    ensures
        bytes_outcome(r) == encrypt_outcome(plaintext@, key@, nonce@),
        key@.len() == KEY_SIZE && plaintext@.len() <= aead_max() ==> r is Ok,
        r is Ok ==> decrypt_outcome(r->Ok_0@, key@) == Ok::<Seq<u8>, CryptoError>(plaintext@),
{
    if key.len() != KEY_SIZE {
        return Err(CryptoError::InvalidKeySize(key.len()));
    }
    match aes_gcm_seal(key, nonce, plaintext) {
        Some(sealed) => {
            let mut output = copy_bytes(nonce);
            push_all_bytes(&mut output, sealed.as_slice());
            proof {
                assert(output@.take(12) =~= nonce@);
                assert(output@.skip(12) =~= sealed@);
            }
            Ok(output)
        },
        None => Err(CryptoError::EncryptionFailed),
    }
}

/// Encrypts `plaintext` under `key` with a fresh random nonce (format:
/// nonce, ciphertext, tag); what it gives decrypts back to `plaintext`.
pub fn encrypt(plaintext: &[u8], key: &[u8]) -> (r: Result<Vec<u8>, CryptoError>)
    ensures
        key@.len() != KEY_SIZE ==> r == Err::<Vec<u8>, CryptoError>(CryptoError::InvalidKeySize(key@.len() as usize)),
        key@.len() == KEY_SIZE ==> (r matches Err(e) ==> e == CryptoError::EncryptionFailed),
        key@.len() == KEY_SIZE && plaintext@.len() <= aead_max() ==> r is Ok,
        r is Ok ==> decrypt_outcome(r->Ok_0@, key@) == Ok::<Seq<u8>, CryptoError>(plaintext@),
        r is Ok ==> exists|n: Seq<u8>| n.len() == NONCE_SIZE && #[trigger] encrypt_outcome(plaintext@, key@, n) == Ok::<Seq<u8>, CryptoError>(r->Ok_0@),
{
    let mut nonce = [0u8; NONCE_SIZE];
    fill_random(&mut nonce);
    let r = encrypt_with_nonce(plaintext, key, &nonce);
    proof {
        if r is Ok {
            assert(encrypt_outcome(plaintext@, key@, nonce@) == Ok::<Seq<u8>, CryptoError>(r->Ok_0@));
        }
    }
    r
}

/// Decrypts data made by `encrypt` (format: nonce, ciphertext, tag).
pub fn decrypt(ciphertext: &[u8], key: &[u8]) -> (r: Result<Vec<u8>, CryptoError>)
    ensures
        bytes_outcome(r) == decrypt_outcome(ciphertext@, key@),
{
    if key.len() != KEY_SIZE {
        return Err(CryptoError::InvalidKeySize(key.len()));
    }
    if ciphertext.len() < NONCE_SIZE {
        return Err(CryptoError::CiphertextTooShort);
    }
    let nonce = bytes_take(ciphertext, NONCE_SIZE);
    let data = bytes_from(ciphertext, NONCE_SIZE);
    match aes_gcm_open(key, nonce.as_slice(), data.as_slice()) {
        Some(p) => Ok(p),
        None => Err(CryptoError::DecryptionFailed),
    }
}

/// The SHA-256 digest of `data`.
pub fn hash_sha256(data: &[u8]) -> (r: [u8; 32])
    ensures
        r@ == spec_sha256(data@),
{
    sha256(data)
}

/// Whether `data` has the digest `expected_hash`.
pub fn verify_hash(data: &[u8], expected_hash: &[u8; 32]) -> (r: bool)
    ensures
        r == (spec_sha256(data@) == expected_hash@),
{
    let actual = sha256(data);
    bytes_eq(&actual, expected_hash)
}

} // verus!
