//! The manifest: the recipe from which a file is put together again.

use vstd::prelude::*;
use crate::params::{DATA_SHARDS, KEY_LEN, NONCE_LEN, TOTAL_SHARDS};

verus! {

/// What is needed to decode one chunk.
#[derive(Clone, Debug, PartialEq, Eq)]
pub struct ChunkInfo {
    /// Position of the chunk in the file.
    pub chunk_index: usize,
    /// Length of the chunk's ciphertext, before it was padded into shards.
    pub encrypted_size: usize,
    /// Nonce under which the chunk was sealed.
    pub nonce: Vec<u8>,
}

/// Where one shard was placed.
#[derive(Clone, Debug, PartialEq, Eq)]
pub struct ShardLocation {
    /// Position of the chunk in the file.
    pub chunk_index: usize,
    /// Position of the shard among the ten shards of its chunk.
    pub shard_index: usize,
    /// Identifier of the peer that holds the shard.
    pub device_id: String,
    /// Address of that peer, as `host:port`.
    pub device_address: String,
    /// Identifier under which the peer holds the shard.
    pub shard_id: String,
    /// Nonce of the chunk.
    pub nonce: Vec<u8>,
}

/// The recipe of a stored file.
#[derive(Clone, Debug, PartialEq, Eq)]
pub struct Manifest {
    /// Identifier of the file.
    pub file_id: String,
    /// Name that the file had when it was uploaded.
    pub original_name: String,
    /// Length of the file in bytes.
    pub file_size: usize,
    /// Number of chunks.
    pub chunk_count: usize,
    /// Key under which the chunks are sealed.
    pub encryption_key: Vec<u8>,
    /// The shards that were placed, in the order of their placement.
    pub shard_map: Vec<ShardLocation>,
    /// One record per chunk, in the order of the chunks.
    pub chunks: Vec<ChunkInfo>,
    /// Folder that the file is synchronised from, if any.
    pub sync_folder: Option<String>,
    /// Free-form tags.
    pub tags: Vec<String>,
    /// Time of the upload, in seconds since the epoch.
    pub created_at: u64,
    /// Time of the last health verification, if there was one.
    pub last_verified: Option<u64>,
}

/// Number of entries of a shard map that belong to the chunk `chunk`.
pub open spec fn placed_count(shard_map: Seq<ShardLocation>, chunk: int) -> nat
    decreases shard_map.len(),
{
    if shard_map.len() == 0 {
        0
    } else {
        placed_count(shard_map.drop_last(), chunk) + if shard_map.last().chunk_index == chunk {
            1nat
        } else {
            0nat
        }
    }
}

/// No two entries of a shard map speak of the same shard of the same chunk.
pub open spec fn distinct_shards(shard_map: Seq<ShardLocation>) -> bool {
    forall|i: int, j: int|
        0 <= i < j < shard_map.len() ==> !((#[trigger] shard_map[i]).chunk_index == (
        #[trigger] shard_map[j]).chunk_index && shard_map[i].shard_index
            == shard_map[j].shard_index)
}

/// Every entry of a shard map names a chunk below `chunk_count` and one of its ten shards.
pub open spec fn shards_in_range(shard_map: Seq<ShardLocation>, chunk_count: nat) -> bool {
    forall|i: int|
        0 <= i < shard_map.len() ==> (#[trigger] shard_map[i]).chunk_index < chunk_count
            && shard_map[i].shard_index < TOTAL_SHARDS
}

/// The chunk records are in the order of the chunks, each with a nonce of 12 bytes.
pub open spec fn chunks_in_order(chunks: Seq<ChunkInfo>) -> bool {
    forall|i: int|
        0 <= i < chunks.len() ==> (#[trigger] chunks[i]).chunk_index == i && chunks[i].nonce@.len()
            == NONCE_LEN
}

/// Counts the entries of a shard map that belong to the chunk `chunk`.
pub fn count_placed(shard_map: &Vec<ShardLocation>, chunk: usize) -> (count: usize)
    ensures
        count == placed_count(shard_map@, chunk as int),
        count <= shard_map@.len(),
{
    let mut count: usize = 0;
    let mut i: usize = 0;
    while i < shard_map.len()
        invariant
            i <= shard_map@.len(),
            count <= i,
            count == placed_count(shard_map@.take(i as int), chunk as int),
        decreases shard_map@.len() - i,
    {
        assert(shard_map@.take(i + 1).drop_last() =~= shard_map@.take(i as int));
        if shard_map[i].chunk_index == chunk {
            count = count + 1;
        }
        i = i + 1;
    }
    assert(shard_map@.take(i as int) =~= shard_map@);
    count
}

/// Every one of the first `chunk_count` chunks has at least six entries in the shard map.
pub open spec fn enough_placed(shard_map: Seq<ShardLocation>, chunk_count: nat) -> bool {
    forall|chunk: int|
        0 <= chunk < chunk_count ==> #[trigger] placed_count(shard_map, chunk) >= DATA_SHARDS
}

/// Tells whether every one of the first `chunk_count` chunks has at least six entries in
/// the shard map.
pub fn check_placement(shard_map: &Vec<ShardLocation>, chunk_count: usize) -> (enough: bool)
    ensures
        enough == enough_placed(shard_map@, chunk_count as nat),
{
    let mut chunk: usize = 0;
    while chunk < chunk_count
        invariant
            chunk <= chunk_count,
            enough_placed(shard_map@, chunk as nat),
        decreases chunk_count - chunk,
    {
        if count_placed(shard_map, chunk) < DATA_SHARDS {
            return false;
        }
        chunk = chunk + 1;
    }
    true
}

/// Tells whether the chunk records are in the order of the chunks, each with a nonce of 12
/// bytes.
pub fn check_chunks(chunks: &Vec<ChunkInfo>) -> (ok: bool)
    ensures
        ok == chunks_in_order(chunks@),
{
    let mut i: usize = 0;
    while i < chunks.len()
        invariant
            i <= chunks@.len(),
            chunks_in_order(chunks@.take(i as int)),
        decreases chunks@.len() - i,
    {
        if chunks[i].chunk_index != i || chunks[i].nonce.len() != NONCE_LEN {
            return false;
        }
        assert forall|k: int| 0 <= k < i + 1 implies (#[trigger] chunks@.take(i + 1)[k]).chunk_index
            == k && chunks@.take(i + 1)[k].nonce@.len() == NONCE_LEN by {
            if k < i {
                assert(chunks@.take(i as int)[k] == chunks@[k]);
            }
        }
        i = i + 1;
    }
    assert(chunks@.take(i as int) =~= chunks@);
    true
}

/// Tells whether every entry of a shard map is in range.
pub fn check_range(shard_map: &Vec<ShardLocation>, chunk_count: usize) -> (ok: bool)
    ensures
        ok == shards_in_range(shard_map@, chunk_count as nat),
{
    let mut i: usize = 0;
    while i < shard_map.len()
        invariant
            i <= shard_map@.len(),
            forall|k: int|
                0 <= k < i ==> (#[trigger] shard_map@[k]).chunk_index < chunk_count
                    && shard_map@[k].shard_index < TOTAL_SHARDS,
        decreases shard_map@.len() - i,
    {
        if shard_map[i].chunk_index >= chunk_count || shard_map[i].shard_index >= TOTAL_SHARDS {
            return false;
        }
        i = i + 1;
    }
    true
}

/// Tells whether the entries of a shard map speak of distinct shards.
pub fn check_distinct(shard_map: &Vec<ShardLocation>) -> (ok: bool)
    ensures
        ok == distinct_shards(shard_map@),
{
    let mut j: usize = 0;
    while j < shard_map.len()
        invariant
            j <= shard_map@.len(),
            forall|a: int, b: int|
                0 <= a < b < j ==> !((#[trigger] shard_map@[a]).chunk_index == (
                #[trigger] shard_map@[b]).chunk_index && shard_map@[a].shard_index
                    == shard_map@[b].shard_index),
        decreases shard_map@.len() - j,
    {
        let mut i: usize = 0;
        while i < j
            invariant
                i <= j < shard_map@.len(),
                forall|a: int|
                    0 <= a < i ==> !((#[trigger] shard_map@[a]).chunk_index
                        == shard_map@[j as int].chunk_index && shard_map@[a].shard_index
                        == shard_map@[j as int].shard_index),
            decreases j - i,
        {
            if shard_map[i].chunk_index == shard_map[j].chunk_index && shard_map[i].shard_index
                == shard_map[j].shard_index {
                return false;
            }
            i = i + 1;
        }
        j = j + 1;
    }
    true
}

impl Manifest {
    /// The invariant of a manifest: a key of 32 bytes, one record per chunk in order, and
    /// a shard map whose entries are in range and speak of distinct shards.
    pub open spec fn wf(&self) -> bool {
        &&& self.encryption_key@.len() == KEY_LEN
        &&& self.chunks@.len() == self.chunk_count
        &&& chunks_in_order(self.chunks@)
        &&& shards_in_range(self.shard_map@, self.chunk_count as nat)
        &&& distinct_shards(self.shard_map@)
    }

    /// Tells whether the manifest keeps its invariant.
    pub fn is_valid(&self) -> (valid: bool)
        ensures
            valid == self.wf(),
    {
        self.encryption_key.len() == KEY_LEN && self.chunks.len() == self.chunk_count
            && check_chunks(&self.chunks) && check_range(&self.shard_map, self.chunk_count)
            && check_distinct(&self.shard_map)
    }

    /// Tells whether every chunk has at least six shards placed.
    pub fn is_recoverable(&self) -> (yes: bool)
        ensures
            yes == self.recoverable(),
    {
        check_placement(&self.shard_map, self.chunk_count)
    }

    /// Every chunk has at least six shards placed, so that the file can be recovered.
    pub open spec fn recoverable(&self) -> bool {
        enough_placed(self.shard_map@, self.chunk_count as nat)
    }
}

} // verus!
