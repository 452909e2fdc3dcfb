//! Authenticated encryption of chunks and manifests, and the random values it needs.

use vstd::prelude::*;
use chacha20poly1305::aead::{Aead, KeyInit};
use rand::RngCore;
use crate::error::StoreError;
use crate::params::{KEY_LEN, NONCE_LEN, TAG_LEN};

verus! {

/// The ciphertext, tag included, that ChaCha20-Poly1305 gives for a plaintext under a
/// 32-byte key and a 12-byte nonce, with no associated data.
pub uninterp spec fn chacha20poly1305_sealed(
    key: Seq<u8>,
    nonce: Seq<u8>,
    plaintext: Seq<u8>,
) -> Seq<u8>;

/// The plaintext that ChaCha20-Poly1305 gives for a ciphertext under a 32-byte key and a
/// 12-byte nonce, with no associated data; `None` where authentication fails.
pub uninterp spec fn chacha20poly1305_opened(
    key: Seq<u8>,
    nonce: Seq<u8>,
    ciphertext: Seq<u8>,
) -> Option<Seq<u8>>;

/// The plaintext lengths that the cipher takes: the ciphertext must fit a buffer, and the
/// cipher's block counter has 32 bits.
pub open spec fn sealable(len: nat) -> bool {
    len + TAG_LEN <= isize::MAX && len / 64 < u32::MAX
}

/// Calls `ChaCha20Poly1305::new` and `Aead::encrypt` of the crate chacha20poly1305.
///
/// The contract claims: the call fails exactly where the plaintext has more 64-byte blocks
/// than the cipher can count; the ciphertext is the plaintext's length plus the tag; and
/// decrypting it under the same key and nonce gives the plaintext back.
#[verifier::external_body]
fn aead_encrypt(key: &[u8], nonce: &[u8], plaintext: &[u8]) -> (res: Option<Vec<u8>>)
    requires
        key@.len() == KEY_LEN,
        nonce@.len() == NONCE_LEN,
        plaintext@.len() + TAG_LEN <= isize::MAX,
    ensures
        res is Some <==> plaintext@.len() / 64 < u32::MAX,
        res matches Some(sealed) ==> sealed@ == chacha20poly1305_sealed(
            key@,
            nonce@,
            plaintext@,
        ),
        res matches Some(sealed) ==> sealed@.len() == plaintext@.len() + TAG_LEN,
        res matches Some(sealed) ==> chacha20poly1305_opened(key@, nonce@, sealed@) == Some(
            plaintext@,
        ),
{
    chacha20poly1305::ChaCha20Poly1305::new(chacha20poly1305::Key::from_slice(key)).encrypt(
        chacha20poly1305::Nonce::from_slice(nonce),
        plaintext,
    ).ok()
}

/// Calls `ChaCha20Poly1305::new` and `Aead::decrypt` of the crate chacha20poly1305.
///
/// The contract claims: a plaintext that comes back is shorter than the ciphertext by the
/// tag.
#[verifier::external_body]
fn aead_decrypt(key: &[u8], nonce: &[u8], ciphertext: &[u8]) -> (res: Option<Vec<u8>>)
    requires
        key@.len() == KEY_LEN,
        nonce@.len() == NONCE_LEN,
    ensures
        res matches Some(plain) ==> chacha20poly1305_opened(key@, nonce@, ciphertext@) == Some(
            plain@,
        ),
        res matches Some(plain) ==> plain@.len() + TAG_LEN == ciphertext@.len(),
        res is None ==> chacha20poly1305_opened(key@, nonce@, ciphertext@) is None,
{
    chacha20poly1305::ChaCha20Poly1305::new(chacha20poly1305::Key::from_slice(key)).decrypt(
        chacha20poly1305::Nonce::from_slice(nonce),
        ciphertext,
    ).ok()
}

/// Calls `rand::thread_rng` and `RngCore::fill_bytes` on a buffer of `len` bytes.
///
/// The contract claims the length of what comes back, and nothing of its content.
#[verifier::external_body]
fn random_bytes(len: usize) -> (bytes: Vec<u8>)
    ensures
        bytes@.len() == len,
{
    let mut bytes = vec![0u8; len];
    rand::thread_rng().fill_bytes(&mut bytes);
    bytes
}

/// What sealing gives: the ciphertext, or the reason why there is none.
pub open spec fn seal_outcome(key: Seq<u8>, nonce: Seq<u8>, plaintext: Seq<u8>) -> Result<
    Seq<u8>,
    StoreError,
> {
    if key.len() != KEY_LEN || nonce.len() != NONCE_LEN {
        Err(StoreError::InvalidKey)
    } else if !sealable(plaintext.len()) {
        Err(StoreError::PayloadTooLarge)
    } else {
        Ok(chacha20poly1305_sealed(key, nonce, plaintext))
    }
}

/// What opening gives: the plaintext, or the reason why there is none.
pub open spec fn open_outcome(key: Seq<u8>, nonce: Seq<u8>, ciphertext: Seq<u8>) -> Result<
    Seq<u8>,
    StoreError,
> {
    if key.len() != KEY_LEN || nonce.len() != NONCE_LEN {
        Err(StoreError::InvalidKey)
    } else {
        match chacha20poly1305_opened(key, nonce, ciphertext) {
            Some(plain) => Ok(plain),
            None => Err(StoreError::CorruptCiphertext),
        }
    }
}

/// A result that holds bytes, seen as a result that holds their sequence.
pub open spec fn bytes_result(res: Result<Vec<u8>, StoreError>) -> Result<Seq<u8>, StoreError> {
    match res {
        Ok(bytes) => Ok(bytes@),
        Err(e) => Err(e),
    }
}

/// A fresh random symmetric key.
pub fn fresh_key() -> (key: Vec<u8>)
    ensures
        key@.len() == KEY_LEN,
{
    random_bytes(KEY_LEN)
}

/// A fresh random nonce.
pub fn fresh_nonce() -> (nonce: Vec<u8>)
    ensures
        nonce@.len() == NONCE_LEN,
{
    random_bytes(NONCE_LEN)
}

/// Seals a plaintext under a key and a nonce.
///
/// A key that is not 32 bytes or a nonce that is not 12 bytes is refused, then a
/// plaintext that the cipher cannot take. The ciphertext is longer than the plaintext by
/// the tag, and opens to the plaintext under the same key and nonce.
pub fn seal(plaintext: &[u8], key: &[u8], nonce: &[u8]) -> (res: Result<Vec<u8>, StoreError>)
    ensures
        bytes_result(res) == seal_outcome(key@, nonce@, plaintext@),
        res matches Ok(sealed) ==> {
            &&& sealed@.len() == plaintext@.len() + TAG_LEN
            &&& open_outcome(key@, nonce@, sealed@) == Ok::<Seq<u8>, StoreError>(plaintext@)
        },
{
    if key.len() != KEY_LEN || nonce.len() != NONCE_LEN {
        return Err(StoreError::InvalidKey);
    }
    if plaintext.len() > (isize::MAX as usize) - TAG_LEN {
        return Err(StoreError::PayloadTooLarge);
    }
    match aead_encrypt(key, nonce, plaintext) {
        Some(sealed) => Ok(sealed),
        None => Err(StoreError::PayloadTooLarge),
    }
}

/// Encrypts a chunk's compressed payload under a fresh random nonce, and returns the
/// ciphertext with the nonce.
///
/// Fails where `seal` fails. Which nonce is drawn is not determined; whichever it is, the
/// ciphertext is the one that `seal` gives under it.
pub fn encrypt_chunk(data: &[u8], key: &[u8]) -> (res: Result<(Vec<u8>, Vec<u8>), StoreError>)
    ensures
        match res {
            Ok((sealed, nonce)) => {
                &&& nonce@.len() == NONCE_LEN
                &&& seal_outcome(key@, nonce@, data@) == Ok::<Seq<u8>, StoreError>(sealed@)
                &&& sealed@.len() == data@.len() + TAG_LEN
                &&& open_outcome(key@, nonce@, sealed@) == Ok::<Seq<u8>, StoreError>(data@)
            },
            Err(e) => {
                &&& forall|nonce: Seq<u8>|
                    nonce.len() == NONCE_LEN ==> #[trigger] seal_outcome(key@, nonce, data@)
                        == Err::<Seq<u8>, StoreError>(e)
            },
        },
{
    let nonce = fresh_nonce();
    match seal(data, key, nonce.as_slice()) {
        Ok(sealed) => Ok((sealed, nonce)),
        Err(e) => Err(e),
    }
}

/// Decrypts a chunk's ciphertext.
///
/// A key that is not 32 bytes or a nonce that is not 12 bytes is refused; a ciphertext
/// that does not authenticate under them is corrupt, and one shorter than the tag is
/// always so. No other outcome yields bytes.
pub fn decrypt_chunk(data: &[u8], key: &[u8], nonce: &[u8]) -> (res: Result<Vec<u8>, StoreError>)
    ensures
        bytes_result(res) == open_outcome(key@, nonce@, data@),
        res matches Ok(plain) ==> plain@.len() + TAG_LEN == data@.len(),
        data@.len() < TAG_LEN && key@.len() == KEY_LEN && nonce@.len() == NONCE_LEN ==> res
            == Err::<Vec<u8>, StoreError>(StoreError::CorruptCiphertext),
{
    if key.len() != KEY_LEN || nonce.len() != NONCE_LEN {
        return Err(StoreError::InvalidKey);
    }
    match aead_decrypt(key, nonce, data) {
        Some(plain) => Ok(plain),
        None => Err(StoreError::CorruptCiphertext),
    }
}

} // verus!
