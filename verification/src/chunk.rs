//! One chunk through the pipeline, both ways: compressed, sealed and spread over shards;
//! and from any six of the shards back to the chunk.

use vstd::prelude::*;
use vstd::slice::slice_to_vec;
use crate::codec::{compress, compressed, decompressed, inflate, LZ4_MAX_INPUT};
use crate::crypto::{
    bytes_result, decrypt_chunk, fresh_nonce, open_outcome, seal, seal_outcome,
};
use crate::crypto::chacha20poly1305_opened;
use crate::erasure::{
    coded_shards, erasure_of, gather, gathered, present_count, shard_size, spread, ten_shards_of,
};
use crate::error::StoreError;
use crate::manifest::ChunkInfo;
use crate::params::{DATA_SHARDS, KEY_LEN, MAX_INFLATED, NONCE_LEN, TAG_LEN, TOTAL_SHARDS};

verus! {

/// A chunk as it leaves for the peers: its decoding record and its ten shards.
#[derive(Clone, Debug, PartialEq, Eq)]
pub struct EncodedChunk {
    /// What the manifest records of the chunk.
    pub info: ChunkInfo,
    /// The six data shards, then the four parity shards.
    pub shards: Vec<Vec<u8>>,
}

/// The ciphertext of a chunk: its compressed form, sealed. A chunk too long for the
/// compressor is refused first, then whatever the cipher refuses.
pub open spec fn chunk_ciphertext(chunk: Seq<u8>, key: Seq<u8>, nonce: Seq<u8>) -> Result<
    Seq<u8>,
    StoreError,
> {
    if chunk.len() > LZ4_MAX_INPUT {
        Err(StoreError::PayloadTooLarge)
    } else {
        seal_outcome(key, nonce, compressed(chunk))
    }
}

/// What decoding a chunk from its slots gives: the ciphertext is gathered from the shards
/// at hand, in the length that was recorded; then it is opened, and its plaintext
/// inflated. The first error on the way is the outcome.
pub open spec fn decode_outcome(
    slots: Seq<Option<Seq<u8>>>,
    encrypted_size: nat,
    key: Seq<u8>,
    nonce: Seq<u8>,
) -> Result<Seq<u8>, StoreError> {
    match gathered(slots, encrypted_size) {
        Err(e) => Err(e),
        Ok(ciphertext) => match open_outcome(key, nonce, ciphertext) {
            Err(e) => Err(e),
            Ok(packed) => match decompressed(packed, MAX_INFLATED as nat) {
                None => Err(StoreError::DecompressOverflow),
                Some(chunk) => Ok(chunk),
            },
        },
    }
}

/// Whichever six or more shards of an encoded chunk are at hand, they decode to the chunk.
pub open spec fn decodes_from_any_six(
    shards: Seq<Seq<u8>>,
    encrypted_size: nat,
    key: Seq<u8>,
    nonce: Seq<u8>,
    chunk: Seq<u8>,
) -> bool {
    forall|slots: Seq<Option<Seq<u8>>>|
        erasure_of(slots, shards) && present_count(slots) >= DATA_SHARDS
            ==> #[trigger] decode_outcome(slots, encrypted_size, key, nonce) == Ok::<
            Seq<u8>,
            StoreError,
        >(chunk)
}

/// A chunk whose ciphertext the cipher rejects does not decode: the outcome is a corrupt
/// ciphertext, whatever bytes were gathered.
pub proof fn lemma_rejected_ciphertext_fails(
    slots: Seq<Option<Seq<u8>>>,
    encrypted_size: nat,
    key: Seq<u8>,
    nonce: Seq<u8>,
)
    requires
        key.len() == KEY_LEN,
        nonce.len() == NONCE_LEN,
        gathered(slots, encrypted_size) matches Ok(ciphertext) && chacha20poly1305_opened(
            key,
            nonce,
            ciphertext,
        ) is None,
    ensures
        decode_outcome(slots, encrypted_size, key, nonce) == Err::<Seq<u8>, StoreError>(
            StoreError::CorruptCiphertext,
        ),
{
}

/// Encodes a chunk under the given nonce.
///
/// The chunk is compressed, sealed under `key` and `nonce`, and spread over ten shards.
/// Fails exactly where `chunk_ciphertext` does, which a key of 32 bytes, a nonce of 12 and
/// a chunk that the compressor takes rule out. Where the chunk is no longer than the
/// inflation limit, any six of the ten shards decode to it.
pub fn encode_chunk_with_nonce(chunk: &[u8], index: usize, key: &[u8], nonce: &[u8]) -> (res:
    Result<EncodedChunk, StoreError>)
    ensures
        key@.len() == KEY_LEN && nonce@.len() == NONCE_LEN && chunk@.len() <= LZ4_MAX_INPUT
            ==> res is Ok,
        match res {
            Ok(encoded) => {
                &&& chunk_ciphertext(chunk@, key@, nonce@) matches Ok(ciphertext)
                &&& encoded.info.chunk_index == index
                &&& encoded.info.encrypted_size == ciphertext.len()
                &&& encoded.info.nonce@ == nonce@
                &&& nonce@.len() == NONCE_LEN
                &&& ciphertext.len() == compressed(chunk@).len() + TAG_LEN
                &&& encoded.shards.deep_view() == coded_shards(ciphertext)
                &&& encoded.shards@.len() == TOTAL_SHARDS
                &&& ten_shards_of(encoded.shards.deep_view(), shard_size(ciphertext.len()))
                &&& chunk@.len() <= MAX_INFLATED ==> decodes_from_any_six(
                    encoded.shards.deep_view(),
                    ciphertext.len(),
                    key@,
                    nonce@,
                    chunk@,
                )
            },
            Err(e) => chunk_ciphertext(chunk@, key@, nonce@) == Err::<Seq<u8>, StoreError>(e),
        },
{
    let packed = match compress(chunk) {
        Ok(packed) => packed,
        Err(e) => {
            return Err(e);
        },
    };
    let sealed = match seal(packed.as_slice(), key, nonce) {
        Ok(sealed) => sealed,
        Err(e) => {
            return Err(e);
        },
    };
    let shards = match spread(sealed.as_slice()) {
        Ok(shards) => shards,
        Err(e) => {
            return Err(e);
        },
    };
    proof {
        if chunk@.len() <= MAX_INFLATED {
            assert forall|slots: Seq<Option<Seq<u8>>>|
                erasure_of(slots, shards.deep_view()) && present_count(slots)
                    >= DATA_SHARDS implies #[trigger] decode_outcome(
                slots,
                sealed@.len(),
                key@,
                nonce@,
            ) == Ok::<Seq<u8>, StoreError>(chunk@) by {
                assert(gathered(slots, sealed@.len()) == Ok::<Seq<u8>, StoreError>(sealed@));
            }
        }
    }
    let info = ChunkInfo {
        chunk_index: index,
        encrypted_size: sealed.len(),
        nonce: slice_to_vec(nonce),
    };
    Ok(EncodedChunk { info, shards })
}

/// Encodes a chunk under a fresh random nonce.
///
/// Which nonce is drawn is not determined; whichever it is, the outcome is that of
/// `encode_chunk_with_nonce` under it, and the record that comes back names it.
pub fn encode_chunk(chunk: &[u8], index: usize, key: &[u8]) -> (res: Result<
    EncodedChunk,
    StoreError,
>)
    ensures
        key@.len() == KEY_LEN && chunk@.len() <= LZ4_MAX_INPUT ==> res is Ok,
        match res {
            Ok(encoded) => {
                let nonce = encoded.info.nonce@;
                &&& nonce.len() == NONCE_LEN
                &&& chunk_ciphertext(chunk@, key@, nonce) matches Ok(ciphertext)
                &&& encoded.info.chunk_index == index
                &&& encoded.info.encrypted_size == ciphertext.len()
                &&& ciphertext.len() == compressed(chunk@).len() + TAG_LEN
                &&& encoded.shards.deep_view() == coded_shards(ciphertext)
                &&& encoded.shards@.len() == TOTAL_SHARDS
                &&& ten_shards_of(encoded.shards.deep_view(), shard_size(ciphertext.len()))
                &&& chunk@.len() <= MAX_INFLATED ==> decodes_from_any_six(
                    encoded.shards.deep_view(),
                    ciphertext.len(),
                    key@,
                    nonce,
                    chunk@,
                )
            },
            Err(e) => forall|nonce: Seq<u8>|
                nonce.len() == NONCE_LEN ==> #[trigger] chunk_ciphertext(chunk@, key@, nonce)
                    == Err::<Seq<u8>, StoreError>(e),
        },
{
    let nonce = fresh_nonce();
    encode_chunk_with_nonce(chunk, index, key, nonce.as_slice())
}

/// Decodes a chunk from the shards that were fetched.
///
/// `slots` holds each fetched shard at its shard index. The outcome is exactly
/// `decode_outcome`: the chunk, or the first of the errors that stand in its way.
pub fn decode_chunk(
    slots: Vec<Option<Vec<u8>>>,
    encrypted_size: usize,
    key: &[u8],
    nonce: &[u8],
) -> (res: Result<Vec<u8>, StoreError>)
    ensures
        bytes_result(res) == decode_outcome(
            slots.deep_view(),
            encrypted_size as nat,
            key@,
            nonce@,
        ),
        res matches Ok(chunk) ==> chunk@.len() <= MAX_INFLATED,
{
    let sealed = match gather(slots, encrypted_size) {
        Ok(sealed) => sealed,
        Err(e) => {
            return Err(e);
        },
    };
    let packed = match decrypt_chunk(sealed.as_slice(), key, nonce) {
        Ok(packed) => packed,
        Err(e) => {
            return Err(e);
        },
    };
    inflate(packed.as_slice())
}

} // verus!
