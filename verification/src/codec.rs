//! Block compression of payloads, with a cap on the inflated size.

use vstd::prelude::*;
use crate::error::StoreError;
use crate::params::MAX_INFLATED;

verus! {

/// Longest input that the LZ4 block format can take.
pub const LZ4_MAX_INPUT: usize = 0x7E00_0000;

/// What `lz4::block::compress` gives for `data` in its default mode and without a size
/// prefix.
pub uninterp spec fn lz4_compressed(data: Seq<u8>) -> Seq<u8>;

/// What `lz4::block::decompress` gives for `data` when told that the output has at most
/// `limit` bytes; `None` where it reports an error.
pub uninterp spec fn lz4_decompressed(data: Seq<u8>, limit: int) -> Option<Seq<u8>>;

/// Upper bound of LZ4 on the compressed size of `len` bytes.
pub open spec fn lz4_bound(len: nat) -> nat {
    len + len / 255 + 16
}

/// Calls `lz4::block::compress` with no mode and no size prefix.
///
/// The contract claims: the call fails exactly on inputs longer than the format allows;
/// the output is never empty and keeps within the bound that LZ4 documents; decompressing
/// it with any limit that the input fits into, and that the format allows, gives the input
/// back.
#[verifier::external_body]
fn lz4_compress(data: &[u8]) -> (res: Option<Vec<u8>>)
    ensures
        res is Some <==> data@.len() <= LZ4_MAX_INPUT,
        res matches Some(packed) ==> packed@ == lz4_compressed(data@),
        res matches Some(packed) ==> 0 < packed@.len() <= lz4_bound(data@.len()),
        res matches Some(packed) ==> forall|limit: int|
            data@.len() <= limit <= LZ4_MAX_INPUT ==> #[trigger] lz4_decompressed(packed@, limit)
                == Some(data@),
{
    lz4::block::compress(data, None, false).ok()
}

/// Calls `lz4::block::decompress` with `limit` as the size of the output buffer.
///
/// The contract claims: the output is no longer than `limit`.
#[verifier::external_body]
fn lz4_decompress(data: &[u8], limit: i32) -> (res: Option<Vec<u8>>)
    ensures
        res matches Some(plain) ==> lz4_decompressed(data@, limit as int) == Some(plain@),
        res matches Some(plain) ==> plain@.len() <= limit,
        res is None ==> lz4_decompressed(data@, limit as int) is None,
{
    lz4::block::decompress(data, Some(limit)).ok()
}

/// The compressed form of a payload: nothing for the empty payload, else its LZ4 block.
pub open spec fn compressed(data: Seq<u8>) -> Seq<u8> {
    if data.len() == 0 {
        Seq::empty()
    } else {
        lz4_compressed(data)
    }
}

/// The payload behind a compressed form, where it inflates to `limit` bytes at most: the
/// empty payload for the empty form, else what the LZ4 block decodes to.
pub open spec fn decompressed(data: Seq<u8>, limit: nat) -> Option<Seq<u8>> {
    if data.len() == 0 {
        Some(Seq::empty())
    } else if limit > i32::MAX {
        None
    } else {
        lz4_decompressed(data, limit as int)
    }
}

/// Compresses a payload.
///
/// The empty payload stays empty. A payload beyond what the block format can take is
/// refused.
pub fn compress(data: &[u8]) -> (res: Result<Vec<u8>, StoreError>)
    ensures
        res is Ok <==> data@.len() <= LZ4_MAX_INPUT,
        res matches Ok(packed) ==> {
            &&& packed@ == compressed(data@)
            &&& packed@.len() <= lz4_bound(data@.len())
            &&& packed@.len() == 0 <==> data@.len() == 0
            &&& forall|limit: nat|
                data@.len() <= limit <= LZ4_MAX_INPUT ==> #[trigger] decompressed(packed@, limit)
                    == Some(data@)
        },
        res matches Err(e) ==> e == StoreError::PayloadTooLarge,
{
    if data.len() == 0 {
        return Ok(Vec::new());
    }
    match lz4_compress(data) {
        Some(packed) => Ok(packed),
        None => Err(StoreError::PayloadTooLarge),
    }
}

/// Decompresses a payload that may inflate to `limit` bytes at most.
///
/// The empty form gives the empty payload. A form that is malformed, or that would
/// inflate beyond the limit, is refused.
pub fn decompress(data: &[u8], limit: usize) -> (res: Result<Vec<u8>, StoreError>)
    ensures
        match res {
            Ok(plain) => decompressed(data@, limit as nat) == Some(plain@) && plain@.len()
                <= limit,
            Err(e) => decompressed(data@, limit as nat) is None && e
                == StoreError::DecompressOverflow,
        },
{
    if data.len() == 0 {
        return Ok(Vec::new());
    }
    if limit > 0x7fff_ffff {
        return Err(StoreError::DecompressOverflow);
    }
    match lz4_decompress(data, limit as i32) {
        Some(plain) => Ok(plain),
        None => Err(StoreError::DecompressOverflow),
    }
}

/// Decompresses a payload under the pipeline's limit of 10 MiB.
pub fn inflate(data: &[u8]) -> (res: Result<Vec<u8>, StoreError>)
    ensures
        match res {
            Ok(plain) => decompressed(data@, MAX_INFLATED as nat) == Some(plain@) && plain@.len()
                <= MAX_INFLATED,
            Err(e) => decompressed(data@, MAX_INFLATED as nat) is None && e
                == StoreError::DecompressOverflow,
        },
{
    decompress(data, MAX_INFLATED)
}

} // verus!
