//! The upload of a file: which shard goes to which peer, what is recorded of each
//! placement, and when the placements suffice for a manifest.
//!
//! The caller sends each request that `Upload::next_request` hands out and reports the
//! outcome with `Upload::record`; when no request is left, `Upload::finish` gives the
//! manifest.

use vstd::prelude::*;
use vstd::slice::{slice_subrange, slice_to_vec};
use crate::bytes::lemma_deep_view_bytes;
use crate::chunk::{chunk_ciphertext, decodes_from_any_six, encode_chunk};
use crate::crypto::fresh_key;
use crate::codec::compressed;
use crate::erasure::{coded_shards, shard_size, ten_shards_of};
use crate::error::StoreError;
use crate::ids::{fresh_id, is_hyphenated_uuid};
use crate::manifest::{
    check_placement, chunks_in_order, distinct_shards, enough_placed, shards_in_range, ChunkInfo,
    Manifest, ShardLocation,
};
use crate::params::{CHUNK_SIZE, KEY_LEN, NONCE_LEN, TAG_LEN, TOTAL_SHARDS};
use crate::peer::{endpoint_text, placement, placement_target, Device};

verus! {

/// Number of chunks of a file of `file_size` bytes: `file_size / CHUNK_SIZE`, rounded up.
pub open spec fn chunk_count(file_size: nat) -> nat {
    ((file_size + CHUNK_SIZE - 1) / (CHUNK_SIZE as int)) as nat
}

/// Where the chunk with index `index` ends in a file of `file_size` bytes.
pub open spec fn chunk_end(file_size: nat, index: nat) -> nat {
    if (index + 1) * CHUNK_SIZE < file_size {
        ((index + 1) * CHUNK_SIZE) as nat
    } else {
        file_size
    }
}

/// The chunk with index `index` of a file.
pub open spec fn chunk_of(file: Seq<u8>, index: nat) -> Seq<u8> {
    file.subrange(index * CHUNK_SIZE, chunk_end(file.len(), index) as int)
}

/// The first `count` chunks of a file, laid end to end.
pub open spec fn concat_chunks(file: Seq<u8>, count: nat) -> Seq<u8>
    decreases count,
{
    if count == 0 {
        Seq::empty()
    } else {
        concat_chunks(file, (count - 1) as nat) + chunk_of(file, (count - 1) as nat)
    }
}

/// The first `count` chunks of a file, laid end to end, are the file up to the end of the
/// last of them.
proof fn lemma_chunks_prefix(file: Seq<u8>, count: nat)
    requires
        count <= chunk_count(file.len()),
    ensures
        count == 0 ==> concat_chunks(file, count) == Seq::<u8>::empty(),
        count > 0 ==> concat_chunks(file, count) == file.take(
            chunk_end(file.len(), (count - 1) as nat) as int,
        ),
    decreases count,
{
    if count > 0 {
        let before = (count - 1) as nat;
        lemma_chunks_prefix(file, before);
        let end = chunk_end(file.len(), before) as int;
        assert(concat_chunks(file, before) =~= file.take(before * CHUNK_SIZE));
        assert(file.take(before * CHUNK_SIZE) + chunk_of(file, before) =~= file.take(end));
    }
}

/// The chunks of a file partition it in order: none is empty or longer than a chunk may
/// be, none but the last is shorter, and end to end they are the file.
pub proof fn lemma_chunks_partition(file: Seq<u8>)
    ensures
        concat_chunks(file, chunk_count(file.len())) == file,
        forall|index: nat|
            index < chunk_count(file.len()) ==> 0 < (#[trigger] chunk_of(file, index)).len()
                <= CHUNK_SIZE,
        forall|index: nat|
            index + 1 < chunk_count(file.len()) ==> (#[trigger] chunk_of(file, index)).len()
                == CHUNK_SIZE,
{
    let count = chunk_count(file.len());
    lemma_chunks_prefix(file, count);
    if count > 0 {
        assert(chunk_end(file.len(), (count - 1) as nat) == file.len());
        assert(file.take(file.len() as int) =~= file);
    } else {
        assert(file =~= Seq::<u8>::empty());
    }
}

/// Computes `chunk_count`.
pub fn count_chunks(file_size: usize) -> (count: usize)
    ensures
        count == chunk_count(file_size as nat),
{
    let whole: usize = file_size / CHUNK_SIZE;
    if file_size % CHUNK_SIZE == 0 {
        whole
    } else {
        whole + 1
    }
}

/// Where the chunk with index `index` begins and ends in a file of `file_size` bytes.
pub fn chunk_bounds(file_size: usize, index: usize) -> (bounds: (usize, usize))
    requires
        index < chunk_count(file_size as nat),
    ensures
        bounds.0 == index * CHUNK_SIZE,
        bounds.1 == chunk_end(file_size as nat, index as nat),
        bounds.0 < bounds.1 <= file_size,
        bounds.1 - bounds.0 <= CHUNK_SIZE,
{
    let start: usize = index * CHUNK_SIZE;
    let end: usize = if file_size - start > CHUNK_SIZE {
        start + CHUNK_SIZE
    } else {
        file_size
    };
    (start, end)
}

/// What a peer is told of a shard that it is to store.
#[derive(Clone, Debug, PartialEq, Eq)]
pub struct ShardMetadata {
    /// Identifier of the file.
    pub file_id: String,
    /// Position of the chunk in the file.
    pub chunk_index: usize,
    /// Position of the shard among the shards of its chunk.
    pub shard_index: usize,
    /// Nonce of the chunk.
    pub nonce: Vec<u8>,
}

/// One shard on its way to a peer.
#[derive(Clone, Debug, PartialEq, Eq)]
pub struct StoreRequest {
    /// Position of the target among the peers of the upload.
    pub peer: usize,
    /// Address of the target, as `host:port`.
    pub address: String,
    /// What the target is told of the shard.
    pub metadata: ShardMetadata,
    /// The shard.
    pub shard: Vec<u8>,
}

/// An upload under way.
pub struct Upload {
    /// The file.
    pub file: Vec<u8>,
    /// Identifier of the file.
    pub file_id: String,
    /// Key under which the chunks are sealed.
    pub key: Vec<u8>,
    /// The peers among which the shards go round.
    pub peers: Vec<Device>,
    /// The records of the chunks encoded so far.
    pub chunks: Vec<ChunkInfo>,
    /// The placements recorded so far.
    pub shard_map: Vec<ShardLocation>,
    /// The shards of the chunk that was encoded last.
    pub shards: Vec<Vec<u8>>,
    /// Index of the next shard of that chunk to send; ten when none is left.
    pub next_shard: usize,
    /// The shards of every chunk encoded so far, as they were handed out.
    pub sent: Ghost<Seq<Seq<Seq<u8>>>>,
}

/// Position of a placement in the order in which shards are sent.
pub open spec fn send_order(location: ShardLocation) -> int {
    location.chunk_index * TOTAL_SHARDS + location.shard_index
}

/// The placements are recorded in the order in which the shards were sent, all of them
/// before `frontier`.
pub open spec fn in_send_order(shard_map: Seq<ShardLocation>, frontier: int) -> bool {
    &&& forall|i: int|
        0 <= i < shard_map.len() ==> (#[trigger] shard_map[i]).shard_index < TOTAL_SHARDS
            && send_order(shard_map[i]) < frontier
    &&& forall|i: int, j: int|
        0 <= i < j < shard_map.len() ==> send_order(#[trigger] shard_map[i]) < send_order(
            #[trigger] shard_map[j],
        )
}

/// Each placement is recorded as it was made: with the peer that the shard's index falls
/// to among the peers, under that peer's identifier and address, and with the nonce of the
/// chunk's record.
pub open spec fn placed_by_rule(
    shard_map: Seq<ShardLocation>,
    peers: Seq<Device>,
    chunks: Seq<ChunkInfo>,
) -> bool {
    forall|i: int|
        0 <= i < shard_map.len() ==> {
            let location = #[trigger] shard_map[i];
            let peer = peers[placement(location.shard_index as nat, peers.len()) as int];
            &&& location.chunk_index < chunks.len()
            &&& location.device_id == peer.device_id
            &&& location.device_address@ == endpoint_text(peer.address@, peer.port)
            &&& location.nonce@ == chunks[location.chunk_index as int].nonce@
        }
}

/// `shards` are the shards of `chunk` under `key` and the nonce of its record: the code
/// word of the chunk's ciphertext, ten shards of one size. The record gives the length of
/// the ciphertext, which is that of the compressed chunk and the tag; from any six of the
/// shards the chunk decodes.
pub open spec fn chunk_sent(
    chunk: Seq<u8>,
    key: Seq<u8>,
    info: ChunkInfo,
    shards: Seq<Seq<u8>>,
) -> bool {
    &&& chunk_ciphertext(chunk, key, info.nonce@) matches Ok(ciphertext)
    &&& info.encrypted_size == ciphertext.len()
    &&& ciphertext.len() == compressed(chunk).len() + TAG_LEN
    &&& shards == coded_shards(ciphertext)
    &&& ten_shards_of(shards, shard_size(ciphertext.len()))
    &&& decodes_from_any_six(shards, ciphertext.len(), key, info.nonce@, chunk)
}

/// `sent` holds, for each record of `chunks`, the shards of the file's chunk at that
/// position.
pub open spec fn was_sent(
    file: Seq<u8>,
    key: Seq<u8>,
    chunks: Seq<ChunkInfo>,
    sent: Seq<Seq<Seq<u8>>>,
) -> bool {
    &&& sent.len() == chunks.len()
    &&& forall|i: int|
        0 <= i < chunks.len() ==> chunk_sent(
            chunk_of(file, i as nat),
            key,
            chunks[i],
            #[trigger] sent[i],
        )
}

impl Upload {
    /// A shard of the current chunk is waiting to be sent.
    pub open spec fn pending(&self) -> bool {
        self.next_shard < TOTAL_SHARDS
    }

    /// Every chunk has been encoded and every shard sent.
    pub open spec fn complete(&self) -> bool {
        !self.pending() && self.chunks@.len() == chunk_count(self.file@.len())
    }

    /// Position in the sending order of the next shard to send.
    pub open spec fn frontier(&self) -> int {
        if self.chunks@.len() == 0 {
            0
        } else {
            (self.chunks@.len() - 1) * TOTAL_SHARDS + self.next_shard
        }
    }

    /// The shards at hand are those of the chunk that was encoded last.
    pub open spec fn shards_of_current(&self) -> bool {
        &&& self.chunks@.len() > 0
        &&& self.shards@.len() == TOTAL_SHARDS
        &&& self.shards.deep_view() == self.sent@.last()
    }

    /// The invariant of an upload.
    pub open spec fn wf(&self) -> bool {
        &&& self.key@.len() == KEY_LEN
        &&& self.peers@.len() > 0
        &&& self.chunks@.len() <= chunk_count(self.file@.len())
        &&& chunks_in_order(self.chunks@)
        &&& was_sent(self.file@, self.key@, self.chunks@, self.sent@)
        &&& self.next_shard <= TOTAL_SHARDS
        &&& in_send_order(self.shard_map@, self.frontier())
        &&& placed_by_rule(self.shard_map@, self.peers@, self.chunks@)
        &&& self.pending() ==> self.shards_of_current()
    }

    /// Begins the upload of a file under a given identifier and key.
    ///
    /// Without peers there is no upload; then a key that is not 32 bytes is refused.
    pub fn start_with(file: Vec<u8>, file_id: String, key: Vec<u8>, peers: Vec<Device>) -> (res:
        Result<Upload, StoreError>)
        ensures
            peers@.len() == 0 ==> res == Err::<Upload, StoreError>(StoreError::NoPeers),
            peers@.len() > 0 && key@.len() != KEY_LEN ==> res == Err::<Upload, StoreError>(
                StoreError::InvalidKey,
            ),
            peers@.len() > 0 && key@.len() == KEY_LEN ==> (res matches Ok(upload) && {
                &&& upload.wf()
                &&& !upload.pending()
                &&& upload.file == file
                &&& upload.file_id == file_id
                &&& upload.key == key
                &&& upload.peers == peers
                &&& upload.chunks@.len() == 0
                &&& upload.shard_map@.len() == 0
            }),
    {
        if peers.len() == 0 {
            return Err(StoreError::NoPeers);
        }
        if key.len() != KEY_LEN {
            return Err(StoreError::InvalidKey);
        }
        Ok(
            Upload {
                file,
                file_id,
                key,
                peers,
                chunks: Vec::new(),
                shard_map: Vec::new(),
                shards: Vec::new(),
                next_shard: TOTAL_SHARDS,
                sent: Ghost(Seq::empty()),
            },
        )
    }

    /// Begins the upload of a file under a fresh identifier and a fresh key.
    ///
    /// Which identifier and key are drawn is not determined: the identifier has the
    /// hyphenated form of 36 characters, the key 32 bytes. Without peers there is no
    /// upload.
    pub fn start(file: Vec<u8>, peers: Vec<Device>) -> (res: Result<Upload, StoreError>)
        ensures
            peers@.len() == 0 ==> res == Err::<Upload, StoreError>(StoreError::NoPeers),
            peers@.len() > 0 ==> (res matches Ok(upload) && {
                &&& upload.wf()
                &&& !upload.pending()
                &&& upload.file == file
                &&& is_hyphenated_uuid(upload.file_id@)
                &&& upload.key@.len() == KEY_LEN
                &&& upload.peers == peers
                &&& upload.chunks@.len() == 0
                &&& upload.shard_map@.len() == 0
            }),
    {
        Upload::start_with(file, fresh_id(), fresh_key(), peers)
    }

    /// Tells whether every chunk has been encoded and every shard sent.
    pub fn is_complete(&self) -> (yes: bool)
        ensures
            yes == self.complete(),
    {
        self.next_shard >= TOTAL_SHARDS && self.chunks.len() == count_chunks(self.file.len())
    }

    /// The next shard to send, with its target; `None` when the upload is complete.
    ///
    /// While a shard is waiting, it is handed out again and nothing changes. Else the next
    /// chunk of the file is encoded under a fresh nonce and its first shard handed out.
    /// The shard with index `i` goes to the peer with index `i` modulo the number of
    /// peers.
    pub fn next_request(&mut self) -> (res: Option<StoreRequest>)
        requires
            old(self).wf(),
        ensures
            final(self).wf(),
            final(self).file == old(self).file,
            final(self).file_id == old(self).file_id,
            final(self).key == old(self).key,
            final(self).peers == old(self).peers,
            final(self).shard_map == old(self).shard_map,
            old(self).pending() ==> *final(self) == *old(self),
            res is None <==> old(self).complete(),
            res is None ==> *final(self) == *old(self),
            !old(self).pending() && !old(self).complete() ==> {
                &&& final(self).chunks@.len() == old(self).chunks@.len() + 1
                &&& final(self).chunks@.drop_last() == old(self).chunks@
                &&& final(self).sent@.drop_last() == old(self).sent@
                &&& final(self).next_shard == 0
            },
            res matches Some(request) ==> {
                let index = (final(self).chunks@.len() - 1) as int;
                &&& final(self).pending()
                &&& request.metadata.file_id == final(self).file_id
                &&& request.metadata.chunk_index == index
                &&& request.metadata.shard_index == final(self).next_shard
                &&& request.metadata.nonce@ == final(self).chunks@[index].nonce@
                &&& request.peer == placement(
                    final(self).next_shard as nat,
                    final(self).peers@.len(),
                )
                &&& request.address@ == endpoint_text(
                    final(self).peers@[request.peer as int].address@,
                    final(self).peers@[request.peer as int].port,
                )
                &&& request.shard@ == final(self).sent@[index][final(self).next_shard as int]
            },
    {
        broadcast use lemma_deep_view_bytes;

        if self.next_shard >= TOTAL_SHARDS {
            let index: usize = self.chunks.len();
            if index >= count_chunks(self.file.len()) {
                return None;
            }
            let (start, end) = chunk_bounds(self.file.len(), index);
            let chunk = slice_subrange(self.file.as_slice(), start, end);
            match encode_chunk(chunk, index, self.key.as_slice()) {
                Ok(encoded) => {
                    let ghost before = self.chunks@;
                    let ghost sent_before = self.sent@;
                    let ghost shards = encoded.shards.deep_view();
                    self.chunks.push(encoded.info);
                    self.shards = encoded.shards;
                    self.next_shard = 0;
                    self.sent = Ghost(sent_before.push(shards));
                    assert(self.sent@.drop_last() =~= sent_before);
                    assert(was_sent(self.file@, self.key@, self.chunks@, self.sent@)) by {
                        assert forall|i: int| 0 <= i < self.chunks@.len() implies chunk_sent(
                            chunk_of(self.file@, i as nat),
                            self.key@,
                            self.chunks@[i],
                            #[trigger] self.sent@[i],
                        ) by {
                            if i < index {
                                assert(self.chunks@[i] == before[i]);
                            }
                        }
                    }
                    assert(chunks_in_order(self.chunks@)) by {
                        assert forall|i: int| 0 <= i < self.chunks@.len() implies (
                        #[trigger] self.chunks@[i]).chunk_index == i
                            && self.chunks@[i].nonce@.len() == NONCE_LEN by {
                            if i < index {
                                assert(self.chunks@[i] == before[i]);
                            }
                        }
                    }
                },
                Err(_) => {
                    return None;
                },
            }
        }
        let index: usize = self.chunks.len() - 1;
        let shard_index: usize = self.next_shard;
        let peer: usize = placement_target(shard_index, self.peers.len());
        let metadata = ShardMetadata {
            file_id: self.file_id.clone(),
            chunk_index: index,
            shard_index,
            nonce: slice_to_vec(self.chunks[index].nonce.as_slice()),
        };
        let shard = slice_to_vec(self.shards[shard_index].as_slice());
        Some(StoreRequest { peer, address: self.peers[peer].endpoint(), metadata, shard })
    }

    /// Records the outcome of the request that was handed out last: the shard identifier
    /// that the peer returned, or `None` where the request failed. A failure is passed
    /// over; the next shard is due either way.
    pub fn record(&mut self, shard_id: Option<String>)
        requires
            old(self).wf(),
            old(self).pending(),
        ensures
            final(self).wf(),
            final(self).file == old(self).file,
            final(self).file_id == old(self).file_id,
            final(self).key == old(self).key,
            final(self).peers == old(self).peers,
            final(self).chunks == old(self).chunks,
            final(self).shards == old(self).shards,
            final(self).sent == old(self).sent,
            final(self).next_shard == old(self).next_shard + 1,
            shard_id is None ==> final(self).shard_map == old(self).shard_map,
            shard_id matches Some(id) ==> {
                let index = (old(self).chunks@.len() - 1) as int;
                let peer = placement(old(self).next_shard as nat, old(self).peers@.len()) as int;
                &&& final(self).shard_map@.len() == old(self).shard_map@.len() + 1
                &&& final(self).shard_map@.drop_last() == old(self).shard_map@
                &&& final(self).shard_map@.last().chunk_index == index
                &&& final(self).shard_map@.last().shard_index == old(self).next_shard
                &&& final(self).shard_map@.last().shard_id == id
                &&& final(self).shard_map@.last().device_id == old(self).peers@[peer].device_id
                &&& final(self).shard_map@.last().device_address@ == endpoint_text(
                    old(self).peers@[peer].address@,
                    old(self).peers@[peer].port,
                )
                &&& final(self).shard_map@.last().nonce@ == old(self).chunks@[index].nonce@
            },
    {
        let index: usize = self.chunks.len() - 1;
        let shard_index: usize = self.next_shard;
        match shard_id {
            Some(id) => {
                let peer: usize = placement_target(shard_index, self.peers.len());
                let location = ShardLocation {
                    chunk_index: index,
                    shard_index,
                    device_id: self.peers[peer].device_id.clone(),
                    device_address: self.peers[peer].endpoint(),
                    shard_id: id,
                    nonce: slice_to_vec(self.chunks[index].nonce.as_slice()),
                };
                let ghost before = self.shard_map@;
                self.shard_map.push(location);
                assert(self.shard_map@.drop_last() =~= before);
            },
            None => {},
        }
        self.next_shard = shard_index + 1;
    }

    /// Ends the upload and gives its manifest.
    ///
    /// Where some chunk has fewer than six placements there is no manifest.
    pub fn finish(
        self,
        original_name: String,
        sync_folder: Option<String>,
        tags: Vec<String>,
        created_at: u64,
    ) -> (res: Result<Manifest, StoreError>)
        requires
            self.wf(),
            self.complete(),
        ensures
            match res {
                Ok(manifest) => {
                    &&& enough_placed(self.shard_map@, chunk_count(self.file@.len()))
                    &&& was_sent(self.file@, manifest.encryption_key@, manifest.chunks@, self.sent@)
                    &&& placed_by_rule(manifest.shard_map@, self.peers@, manifest.chunks@)
                    &&& manifest.wf()
                    &&& manifest.recoverable()
                    &&& manifest.file_id == self.file_id
                    &&& manifest.original_name == original_name
                    &&& manifest.file_size == self.file@.len()
                    &&& manifest.chunk_count == chunk_count(self.file@.len())
                    &&& manifest.encryption_key == self.key
                    &&& manifest.shard_map == self.shard_map
                    &&& manifest.chunks == self.chunks
                    &&& manifest.sync_folder == sync_folder
                    &&& manifest.tags == tags
                    &&& manifest.created_at == created_at
                    &&& manifest.last_verified is None
                },
                Err(e) => {
                    &&& e == StoreError::InsufficientPlacement
                    &&& !enough_placed(self.shard_map@, chunk_count(self.file@.len()))
                },
            },
    {
        let count: usize = self.chunks.len();
        if !check_placement(&self.shard_map, count) {
            return Err(StoreError::InsufficientPlacement);
        }
        proof {
            lemma_send_order_distinct(self.shard_map@, self.frontier(), count as nat);
        }
        Ok(
            Manifest {
                file_id: self.file_id,
                original_name,
                file_size: self.file.len(),
                chunk_count: count,
                encryption_key: self.key,
                shard_map: self.shard_map,
                chunks: self.chunks,
                sync_folder,
                tags,
                created_at,
                last_verified: None,
            },
        )
    }
}

/// Placements in sending order speak of distinct shards, of chunks below the frontier.
proof fn lemma_send_order_distinct(shard_map: Seq<ShardLocation>, frontier: int, count: nat)
    requires
        in_send_order(shard_map, frontier),
        frontier <= count * TOTAL_SHARDS,
    ensures
        distinct_shards(shard_map),
        shards_in_range(shard_map, count),
{
    assert forall|i: int, j: int| 0 <= i < j < shard_map.len() implies !((
    #[trigger] shard_map[i]).chunk_index == (#[trigger] shard_map[j]).chunk_index
        && shard_map[i].shard_index == shard_map[j].shard_index) by {
        assert(send_order(shard_map[i]) < send_order(shard_map[j]));
    }
    assert forall|i: int| 0 <= i < shard_map.len() implies (#[trigger] shard_map[i]).chunk_index
        < count && shard_map[i].shard_index < TOTAL_SHARDS by {
        assert(send_order(shard_map[i]) < frontier);
    }
}

} // verus!
