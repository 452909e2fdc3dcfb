//! The manifest store: under which key a manifest is kept, and in what form.
//!
//! A manifest is kept under `manifest:` and its file identifier. What is kept is a nonce
//! of 12 bytes followed by the serialised manifest, compressed and sealed under the master
//! key and that nonce.

use vstd::prelude::*;
use vstd::slice::slice_subrange;
use vstd::utf8::{
    decode_utf8, encode_utf8, encode_utf8_decode_utf8, encode_utf8_valid_utf8, valid_utf8,
};
use crate::bytes::{append_bytes, copy_range, starts_with};
use crate::codec::{compress, compressed, decompressed, inflate, LZ4_MAX_INPUT};
use crate::crypto::{
    bytes_result, chacha20poly1305_opened, decrypt_chunk, fresh_nonce, open_outcome, seal,
    seal_outcome,
};
use crate::error::StoreError;
use crate::params::{KEY_LEN, MAX_INFLATED, NONCE_LEN, TAG_LEN};
use crate::text::string_from_utf8;

verus! {

/// The bytes `manifest:`.
pub open spec fn key_prefix() -> Seq<u8> {
    seq![109u8, 97, 110, 105, 102, 101, 115, 116, 58]
}

/// The key under which the manifest of a file is kept.
pub open spec fn manifest_key_bytes(file_id: Seq<char>) -> Seq<u8> {
    key_prefix() + encode_utf8(file_id)
}

/// The file identifier that a key of the store names; `None` for a key that does not
/// begin with `manifest:` or does not go on as text.
pub open spec fn key_file_id(key: Seq<u8>) -> Option<Seq<char>> {
    if key.len() >= 9 && key.take(9) == key_prefix() && valid_utf8(key.skip(9)) {
        Some(decode_utf8(key.skip(9)))
    } else {
        None
    }
}

/// The file identifiers that a list of keys names, in the order of the keys.
pub open spec fn listed(keys: Seq<Vec<u8>>) -> Seq<Seq<char>>
    decreases keys.len(),
{
    if keys.len() == 0 {
        Seq::empty()
    } else {
        match key_file_id(keys.last()@) {
            Some(id) => listed(keys.drop_last()).push(id),
            None => listed(keys.drop_last()),
        }
    }
}

/// The key of a file names that file.
pub proof fn lemma_key_names_file(file_id: Seq<char>)
    ensures
        key_file_id(manifest_key_bytes(file_id)) == Some(file_id),
{
    let key = manifest_key_bytes(file_id);
    assert(key.take(9) =~= key_prefix());
    assert(key.skip(9) =~= encode_utf8(file_id));
    encode_utf8_valid_utf8(file_id);
    encode_utf8_decode_utf8(file_id);
}

/// The prefix of the keys under which manifests are kept.
pub fn manifest_prefix() -> (prefix: Vec<u8>)
    ensures
        prefix@ == key_prefix(),
{
    let mut prefix: Vec<u8> = Vec::new();
    prefix.push(109);
    prefix.push(97);
    prefix.push(110);
    prefix.push(105);
    prefix.push(102);
    prefix.push(101);
    prefix.push(115);
    prefix.push(116);
    prefix.push(58);
    prefix
}

/// The key under which the manifest of a file is kept.
pub fn manifest_key(file_id: &str) -> (key: Vec<u8>)
    ensures
        key@ == manifest_key_bytes(file_id@),
{
    let mut key = manifest_prefix();
    append_bytes(&mut key, file_id.as_bytes());
    key
}

/// The file identifier that a key of the store names, if it names one.
pub fn file_id_of_key(key: &[u8]) -> (res: Option<String>)
    ensures
        match res {
            Some(id) => key_file_id(key@) == Some(id@),
            None => key_file_id(key@) is None,
        },
{
    let prefix = manifest_prefix();
    if !starts_with(key, prefix.as_slice()) {
        return None;
    }
    let rest = copy_range(key, 9, key.len());
    string_from_utf8(rest)
}

/// The file identifiers that the keys of a scan name, in the order of the scan. Keys that
/// name no file are passed over.
pub fn list_file_ids(keys: &Vec<Vec<u8>>) -> (ids: Vec<String>)
    ensures
        ids@.len() == listed(keys@).len(),
        forall|i: int| 0 <= i < ids@.len() ==> (#[trigger] ids@[i])@ == listed(keys@)[i],
{
    let mut ids: Vec<String> = Vec::new();
    let mut i: usize = 0;
    while i < keys.len()
        invariant
            i <= keys@.len(),
            ids@.len() == listed(keys@.take(i as int)).len(),
            forall|k: int|
                0 <= k < ids@.len() ==> (#[trigger] ids@[k])@ == listed(keys@.take(i as int))[k],
        decreases keys@.len() - i,
    {
        assert(keys@.take(i + 1).drop_last() =~= keys@.take(i as int));
        match file_id_of_key(keys[i].as_slice()) {
            Some(id) => {
                ids.push(id);
            },
            None => {},
        }
        i = i + 1;
    }
    assert(keys@.take(i as int) =~= keys@);
    ids
}

/// The form in which a serialised manifest is kept under a master key and a nonce: the
/// nonce, then the compressed manifest, sealed.
pub open spec fn sealed_blob(manifest: Seq<u8>, master_key: Seq<u8>, nonce: Seq<u8>) -> Result<
    Seq<u8>,
    StoreError,
> {
    if manifest.len() > LZ4_MAX_INPUT {
        Err(StoreError::PayloadTooLarge)
    } else {
        match seal_outcome(master_key, nonce, compressed(manifest)) {
            Ok(sealed) => Ok(nonce + sealed),
            Err(e) => Err(e),
        }
    }
}

/// The serialised manifest behind a kept form. A form shorter than a nonce, or one that
/// does not authenticate under the master key, is a corrupt manifest.
pub open spec fn opened_blob(blob: Seq<u8>, master_key: Seq<u8>) -> Result<Seq<u8>, StoreError> {
    if blob.len() < NONCE_LEN {
        Err(StoreError::CorruptManifest)
    } else {
        match open_outcome(master_key, blob.take(NONCE_LEN as int), blob.skip(NONCE_LEN as int)) {
            Err(StoreError::CorruptCiphertext) => Err(StoreError::CorruptManifest),
            Err(e) => Err(e),
            Ok(packed) => match decompressed(packed, MAX_INFLATED as nat) {
                Some(manifest) => Ok(manifest),
                None => Err(StoreError::DecompressOverflow),
            },
        }
    }
}

/// A kept form that the cipher rejects under the master key is a corrupt manifest.
pub proof fn lemma_rejected_blob_is_corrupt(blob: Seq<u8>, master_key: Seq<u8>)
    requires
        master_key.len() == KEY_LEN,
        blob.len() >= NONCE_LEN,
        chacha20poly1305_opened(
            master_key,
            blob.take(NONCE_LEN as int),
            blob.skip(NONCE_LEN as int),
        ) is None,
    ensures
        opened_blob(blob, master_key) == Err::<Seq<u8>, StoreError>(StoreError::CorruptManifest),
{
}

/// Puts a nonce before a sealed manifest.
pub fn frame_blob(nonce: &[u8], sealed: &[u8]) -> (blob: Vec<u8>)
    ensures
        blob@ == nonce@ + sealed@,
{
    let mut blob: Vec<u8> = Vec::new();
    append_bytes(&mut blob, nonce);
    append_bytes(&mut blob, sealed);
    blob
}

/// Takes a kept form apart into its nonce of 12 bytes and the sealed manifest after it;
/// `None` for a form that is shorter than a nonce.
pub fn split_blob(blob: &[u8]) -> (parts: Option<(&[u8], &[u8])>)
    ensures
        parts is Some <==> blob@.len() >= NONCE_LEN,
        parts matches Some((nonce, sealed)) ==> {
            &&& nonce@ == blob@.take(NONCE_LEN as int)
            &&& sealed@ == blob@.skip(NONCE_LEN as int)
        },
{
    if blob.len() < NONCE_LEN {
        return None;
    }
    let nonce = slice_subrange(blob, 0, NONCE_LEN);
    let sealed = slice_subrange(blob, NONCE_LEN, blob.len());
    Some((nonce, sealed))
}

/// Puts a serialised manifest into the form in which it is kept, under a given nonce.
///
/// Succeeds whenever the key has 32 bytes, the nonce 12, and the manifest is not longer
/// than the compressor takes. A manifest within the inflation limit opens again to itself.
pub fn seal_manifest_with_nonce(manifest: &[u8], master_key: &[u8], nonce: &[u8]) -> (res: Result<
    Vec<u8>,
    StoreError,
>)
    ensures
        bytes_result(res) == sealed_blob(manifest@, master_key@, nonce@),
        master_key@.len() == KEY_LEN && nonce@.len() == NONCE_LEN && manifest@.len()
            <= LZ4_MAX_INPUT ==> res is Ok,
        res matches Ok(blob) ==> blob@.len() == NONCE_LEN + compressed(manifest@).len() + TAG_LEN,
        res matches Ok(blob) ==> manifest@.len() <= MAX_INFLATED ==> opened_blob(
            blob@,
            master_key@,
        ) == Ok::<Seq<u8>, StoreError>(manifest@),
{
    let packed = match compress(manifest) {
        Ok(packed) => packed,
        Err(e) => {
            return Err(e);
        },
    };
    let sealed = match seal(packed.as_slice(), master_key, nonce) {
        Ok(sealed) => sealed,
        Err(e) => {
            return Err(e);
        },
    };
    let blob = frame_blob(nonce, sealed.as_slice());
    proof {
        assert(blob@.take(NONCE_LEN as int) =~= nonce@);
        assert(blob@.skip(NONCE_LEN as int) =~= sealed@);
        if manifest@.len() <= MAX_INFLATED {
            assert(decompressed(packed@, MAX_INFLATED as nat) == Some(manifest@));
        }
    }
    Ok(blob)
}

/// Puts a serialised manifest into the form in which it is kept, under a fresh random
/// nonce.
///
/// Which nonce is drawn is not determined; whichever it is, the outcome is that of
/// `seal_manifest_with_nonce` under it.
pub fn seal_manifest(manifest: &[u8], master_key: &[u8]) -> (res: Result<Vec<u8>, StoreError>)
    ensures
        master_key@.len() == KEY_LEN && manifest@.len() <= LZ4_MAX_INPUT ==> res is Ok,
        match res {
            Ok(blob) => {
                &&& blob@.len() == NONCE_LEN + compressed(manifest@).len() + TAG_LEN
                &&& sealed_blob(manifest@, master_key@, blob@.take(NONCE_LEN as int)) == Ok::<
                    Seq<u8>,
                    StoreError,
                >(blob@)
                &&& manifest@.len() <= MAX_INFLATED ==> opened_blob(blob@, master_key@) == Ok::<
                    Seq<u8>,
                    StoreError,
                >(manifest@)
            },
            Err(e) => forall|nonce: Seq<u8>|
                nonce.len() == NONCE_LEN ==> #[trigger] sealed_blob(manifest@, master_key@, nonce)
                    == Err::<Seq<u8>, StoreError>(e),
        },
{
    let nonce = fresh_nonce();
    match seal_manifest_with_nonce(manifest, master_key, nonce.as_slice()) {
        Ok(blob) => {
            assert(blob@.take(NONCE_LEN as int) =~= nonce@);
            Ok(blob)
        },
        Err(e) => Err(e),
    }
}

/// Takes a serialised manifest out of the form in which it is kept.
///
/// A form too short to hold a nonce and a tag is a corrupt manifest under every master
/// key of 32 bytes.
pub fn open_manifest(blob: &[u8], master_key: &[u8]) -> (res: Result<Vec<u8>, StoreError>)
    ensures
        bytes_result(res) == opened_blob(blob@, master_key@),
        blob@.len() < NONCE_LEN + TAG_LEN ==> res is Err,
        blob@.len() < NONCE_LEN + TAG_LEN && master_key@.len() == KEY_LEN ==> res == Err::<
            Vec<u8>,
            StoreError,
        >(StoreError::CorruptManifest),
{
    let (nonce, sealed) = match split_blob(blob) {
        Some(parts) => parts,
        None => {
            return Err(StoreError::CorruptManifest);
        },
    };
    let packed = match decrypt_chunk(sealed, master_key, nonce) {
        Ok(packed) => packed,
        Err(StoreError::CorruptCiphertext) => {
            return Err(StoreError::CorruptManifest);
        },
        Err(e) => {
            return Err(e);
        },
    };
    inflate(packed.as_slice())
}

/// Takes a serialised manifest out of what the store holds under a file's key; `None`
/// stands for a key that the store does not hold.
pub fn open_stored(found: Option<Vec<u8>>, master_key: &[u8]) -> (res: Result<
    Vec<u8>,
    StoreError,
>)
    ensures
        match found {
            Some(blob) => {
                &&& bytes_result(res) == opened_blob(blob@, master_key@)
                &&& blob@.len() < NONCE_LEN + TAG_LEN && master_key@.len() == KEY_LEN ==> res
                    == Err::<Vec<u8>, StoreError>(StoreError::CorruptManifest)
            },
            None => res == Err::<Vec<u8>, StoreError>(StoreError::ManifestNotFound),
        },
{
    match found {
        Some(blob) => open_manifest(blob.as_slice(), master_key),
        None => Err(StoreError::ManifestNotFound),
    }
}

} // verus!
