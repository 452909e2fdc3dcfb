//! The download of a file: which shards are fetched, when a chunk can be decoded, and how
//! the chunks make up the file.
//!
//! The caller asks `Download::next_action` what to do, fetches the shard that it names
//! and reports the outcome with `Download::record_fetch`, until the download is done or
//! has failed.

use vstd::prelude::*;
use crate::bytes::{append_bytes, lemma_deep_view_bytes};
use crate::chunk::{decode_chunk, decode_outcome, lemma_rejected_ciphertext_fails};
use crate::crypto::chacha20poly1305_opened;
use crate::erasure::{erasure_of, gathered, present_count};
use crate::error::StoreError;
use crate::manifest::{ChunkInfo, Manifest, ShardLocation};
use crate::params::{CHUNK_SIZE, DATA_SHARDS, TOTAL_SHARDS};
use crate::upload::{chunk_count, chunk_of, concat_chunks, lemma_chunks_partition, was_sent};

verus! {

/// Position of the first entry of the shard map, from `from` on, that belongs to the chunk
/// `chunk`; the length of the map where there is none.
pub open spec fn seek(shard_map: Seq<ShardLocation>, chunk: int, from: int) -> int
    decreases shard_map.len() - from,
{
    if from < 0 || from >= shard_map.len() {
        shard_map.len() as int
    } else if shard_map[from].chunk_index == chunk {
        from
    } else {
        seek(shard_map, chunk, from + 1)
    }
}

/// Ten empty slots.
pub open spec fn empty_slots() -> Seq<Option<Seq<u8>>> {
    Seq::new(TOTAL_SHARDS as nat, |i: int| None::<Seq<u8>>)
}

/// What the caller of a download is to do next.
#[derive(Clone, Debug, PartialEq, Eq)]
pub enum Action {
    /// Fetch the shard that the entry at this position of the shard map names.
    Fetch(usize),
    /// Every chunk is decoded: take the file.
    Done,
    /// The download has failed.
    Failed(StoreError),
}

/// What decoding the chunk of a record from slots gives.
pub open spec fn chunk_outcome(
    info: ChunkInfo,
    key: Seq<u8>,
    slots: Seq<Option<Seq<u8>>>,
) -> Result<Seq<u8>, StoreError> {
    decode_outcome(slots, info.encrypted_size as nat, key, info.nonce@)
}

/// The first `count` chunks end to end, the chunk at each position decoded from the slots
/// at that position.
pub open spec fn decoded_chunks(
    chunks: Seq<ChunkInfo>,
    key: Seq<u8>,
    used: Seq<Seq<Option<Seq<u8>>>>,
    count: nat,
) -> Seq<u8>
    decreases count,
{
    if count == 0 {
        Seq::empty()
    } else {
        let i = count - 1;
        decoded_chunks(chunks, key, used, i as nat) + match chunk_outcome(
            chunks[i],
            key,
            used[i],
        ) {
            Ok(chunk) => chunk,
            Err(_) => Seq::empty(),
        }
    }
}

/// The output of a download: the bytes decoded, cut to the size of the file.
pub open spec fn cut_to_size(decoded: Seq<u8>, file_size: nat) -> Seq<u8> {
    if file_size <= decoded.len() {
        decoded.take(file_size as int)
    } else {
        decoded
    }
}

/// A download under way.
pub struct Download {
    /// The recipe of the file.
    pub manifest: Manifest,
    /// Index of the chunk whose shards are being gathered.
    pub chunk: usize,
    /// Position in the shard map up to which the entries of that chunk have been tried.
    pub cursor: usize,
    /// The shards fetched for that chunk, each at its shard index.
    pub slots: Vec<Option<Vec<u8>>>,
    /// Number of shards fetched for that chunk.
    pub fetched: usize,
    /// Whether the outcome of a fetch is awaited for the entry at `cursor`.
    pub awaiting: bool,
    /// The chunks decoded so far, end to end.
    pub output: Vec<u8>,
    /// The slots from which each of those chunks was decoded.
    pub used: Ghost<Seq<Seq<Option<Seq<u8>>>>>,
}

/// The slots with ten of them empty hold no shard.
proof fn lemma_empty_slots_count(slots: Seq<Option<Seq<u8>>>)
    requires
        forall|i: int| 0 <= i < slots.len() ==> (#[trigger] slots[i]) is None,
    ensures
        present_count(slots) == 0,
    decreases slots.len(),
{
    if slots.len() > 0 {
        lemma_empty_slots_count(slots.drop_last());
    }
}

/// Filling an empty slot adds one to the number of shards at hand.
proof fn lemma_fill_slot_count(slots: Seq<Option<Seq<u8>>>, at: int, shard: Seq<u8>)
    requires
        0 <= at < slots.len(),
        slots[at] is None,
    ensures
        present_count(slots.update(at, Some(shard))) == present_count(slots) + 1,
    decreases slots.len(),
{
    let filled = slots.update(at, Some(shard));
    if at == slots.len() - 1 {
        assert(filled.drop_last() =~= slots.drop_last());
    } else {
        lemma_fill_slot_count(slots.drop_last(), at, shard);
        assert(filled.drop_last() =~= slots.drop_last().update(at, Some(shard)));
    }
}

/// What the first `count` chunks decode to depends on the slots of those chunks only.
proof fn lemma_decoded_prefix(
    chunks: Seq<ChunkInfo>,
    key: Seq<u8>,
    used: Seq<Seq<Option<Seq<u8>>>>,
    more: Seq<Seq<Option<Seq<u8>>>>,
    count: nat,
)
    requires
        count <= used.len() <= more.len(),
        forall|i: int| 0 <= i < count ==> used[i] == more[i],
    ensures
        decoded_chunks(chunks, key, used, count) == decoded_chunks(chunks, key, more, count),
    decreases count,
{
    if count > 0 {
        lemma_decoded_prefix(chunks, key, used, more, (count - 1) as nat);
    }
}

/// Seeking from an entry of another chunk is seeking from the entry after it.
proof fn lemma_seek_skip(shard_map: Seq<ShardLocation>, chunk: int, from: int)
    requires
        0 <= from < shard_map.len(),
        shard_map[from].chunk_index != chunk,
    ensures
        seek(shard_map, chunk, from) == seek(shard_map, chunk, from + 1),
{
}

impl Download {
    /// Number of chunks of the file.
    pub open spec fn chunk_total(&self) -> nat {
        self.manifest.chunk_count as nat
    }

    /// Every chunk is decoded.
    pub open spec fn done(&self) -> bool {
        self.chunk == self.manifest.chunk_count
    }

    /// Every shard in a slot was fetched for an entry of the current chunk that lies
    /// before the cursor.
    pub open spec fn slots_from_map(&self) -> bool {
        forall|s: int|
            0 <= s < self.slots@.len() && (#[trigger] self.slots@[s]) is Some ==> exists|j: int|
                0 <= j < self.cursor && (#[trigger] self.manifest.shard_map@[j]).chunk_index
                    == self.chunk && self.manifest.shard_map@[j].shard_index == s
    }

    /// The invariant of a download.
    pub open spec fn wf(&self) -> bool {
        &&& self.manifest.wf()
        &&& self.chunk <= self.manifest.chunk_count
        &&& self.cursor <= self.manifest.shard_map@.len()
        &&& self.slots@.len() == TOTAL_SHARDS
        &&& self.fetched <= DATA_SHARDS
        &&& self.fetched == present_count(self.slots.deep_view())
        &&& self.slots_from_map()
        &&& self.used@.len() == self.chunk
        &&& self.output@ == decoded_chunks(
            self.manifest.chunks@,
            self.manifest.encryption_key@,
            self.used@,
            self.chunk as nat,
        )
        &&& self.awaiting ==> {
            &&& self.chunk < self.manifest.chunk_count
            &&& self.fetched < DATA_SHARDS
            &&& self.cursor < self.manifest.shard_map@.len()
            &&& self.manifest.shard_map@[self.cursor as int].chunk_index == self.chunk
        }
    }

    /// Begins the download of the file that a manifest describes.
    pub fn begin(manifest: Manifest) -> (download: Download)
        requires
            manifest.wf(),
        ensures
            download.wf(),
            download.manifest == manifest,
            download.chunk == 0,
            download.cursor == 0,
            download.slots.deep_view() == empty_slots(),
            download.fetched == 0,
            !download.awaiting,
            download.output@.len() == 0,
            download.used@.len() == 0,
    {
        let slots = blank_slots();
        proof {
            lemma_empty_slots_count(slots.deep_view());
        }
        Download {
            manifest,
            chunk: 0,
            cursor: 0,
            slots,
            fetched: 0,
            awaiting: false,
            output: Vec::new(),
            used: Ghost(Seq::empty()),
        }
    }

    /// Moves the cursor to the next entry of the current chunk, and says whether there is
    /// one.
    fn seek_next(&mut self) -> (found: bool)
        requires
            old(self).wf(),
            !old(self).awaiting,
            old(self).chunk < old(self).manifest.chunk_count,
            old(self).fetched < DATA_SHARDS,
        ensures
            final(self).wf(),
            final(self).manifest == old(self).manifest,
            final(self).chunk == old(self).chunk,
            final(self).slots == old(self).slots,
            final(self).fetched == old(self).fetched,
            final(self).output == old(self).output,
            final(self).used == old(self).used,
            final(self).cursor == seek(
                old(self).manifest.shard_map@,
                old(self).chunk as int,
                old(self).cursor as int,
            ),
            found == (final(self).cursor < final(self).manifest.shard_map@.len()),
            final(self).awaiting == found,
    {
        let mut at: usize = self.cursor;
        while at < self.manifest.shard_map.len() && self.manifest.shard_map[at].chunk_index
            != self.chunk
            invariant
                self.cursor <= at <= self.manifest.shard_map@.len(),
                seek(self.manifest.shard_map@, self.chunk as int, self.cursor as int) == seek(
                    self.manifest.shard_map@,
                    self.chunk as int,
                    at as int,
                ),
            decreases self.manifest.shard_map@.len() - at,
        {
            proof {
                lemma_seek_skip(self.manifest.shard_map@, self.chunk as int, at as int);
            }
            at = at + 1;
        }
        let found = at < self.manifest.shard_map.len();
        self.cursor = at;
        self.awaiting = found;
        found
    }

    /// Says what the caller is to do next.
    ///
    /// While the current chunk has fewer than six shards, the next entry of the shard
    /// map that belongs to it is to be fetched, in the order of the map; where no entry is
    /// left, the download fails for want of shards. With six shards the chunk is decoded
    /// and appended to the output, and the next chunk begins; an error in decoding fails
    /// the download.
    pub fn next_action(&mut self) -> (action: Action)
        requires
            old(self).wf(),
            !old(self).awaiting,
        ensures
            final(self).wf(),
            final(self).manifest == old(self).manifest,
            action == old(self).action_due(),
            old(self).done() ==> *final(self) == *old(self),
            !old(self).done() && old(self).fetched < DATA_SHARDS ==> {
                &&& final(self).chunk == old(self).chunk
                &&& final(self).slots == old(self).slots
                &&& final(self).fetched == old(self).fetched
                &&& final(self).output == old(self).output
                &&& final(self).used == old(self).used
                &&& final(self).cursor == seek(
                    old(self).manifest.shard_map@,
                    old(self).chunk as int,
                    old(self).cursor as int,
                )
            },
            !old(self).done() && old(self).fetched == DATA_SHARDS ==> match old(
                self,
            ).decoded() {
                Ok(bytes) => {
                    &&& final(self).output@ == old(self).output@ + bytes
                    &&& final(self).used@ == old(self).used@.push(old(self).slots.deep_view())
                    &&& final(self).chunk == old(self).chunk + 1
                    &&& final(self).fetched == 0
                    &&& final(self).slots.deep_view() == empty_slots()
                    &&& !final(self).done() ==> final(self).cursor == seek(
                        old(self).manifest.shard_map@,
                        old(self).chunk + 1,
                        0,
                    )
                },
                Err(_) => {
                    &&& final(self).output == old(self).output
                    &&& final(self).used == old(self).used
                    &&& final(self).chunk == old(self).chunk
                },
            },
            action matches Action::Fetch(at) ==> final(self).awaiting && at == final(self).cursor,
            !(action is Fetch) ==> !final(self).awaiting,
    {
        if self.chunk >= self.manifest.chunk_count {
            return Action::Done;
        }
        if self.fetched < DATA_SHARDS {
            if self.seek_next() {
                return Action::Fetch(self.cursor);
            }
            return Action::Failed(StoreError::InsufficientShards);
        }
        let mut slots = blank_slots();
        proof {
            lemma_empty_slots_count(slots.deep_view());
        }
        core::mem::swap(&mut self.slots, &mut slots);
        let info = &self.manifest.chunks[self.chunk];
        let decoded = decode_chunk(
            slots,
            info.encrypted_size,
            self.manifest.encryption_key.as_slice(),
            info.nonce.as_slice(),
        );
        match decoded {
            Ok(bytes) => {
                append_bytes(&mut self.output, bytes.as_slice());
                let ghost before = self.used@;
                self.used = Ghost(before.push(old(self).slots.deep_view()));
                proof {
                    lemma_decoded_prefix(
                        self.manifest.chunks@,
                        self.manifest.encryption_key@,
                        before,
                        self.used@,
                        self.chunk as nat,
                    );
                }
            },
            Err(e) => {
                self.fetched = 0;
                return Action::Failed(e);
            },
        }
        self.chunk = self.chunk + 1;
        self.cursor = 0;
        self.fetched = 0;
        if self.chunk >= self.manifest.chunk_count {
            return Action::Done;
        }
        if self.seek_next() {
            return Action::Fetch(self.cursor);
        }
        Action::Failed(StoreError::InsufficientShards)
    }

    /// What decoding the current chunk from the shards at hand gives.
    pub open spec fn decoded(&self) -> Result<Seq<u8>, StoreError> {
        chunk_outcome(
            self.manifest.chunks@[self.chunk as int],
            self.manifest.encryption_key@,
            self.slots.deep_view(),
        )
    }

    /// What is due in a state: see `next_action`.
    pub open spec fn action_due(&self) -> Action {
        let map = self.manifest.shard_map@;
        if self.done() {
            Action::Done
        } else if self.fetched < DATA_SHARDS {
            let at = seek(map, self.chunk as int, self.cursor as int);
            if at < map.len() {
                Action::Fetch(at as usize)
            } else {
                Action::Failed(StoreError::InsufficientShards)
            }
        } else {
            match self.decoded() {
                Err(e) => Action::Failed(e),
                Ok(_) => if self.chunk + 1 == self.manifest.chunk_count {
                    Action::Done
                } else {
                    let at = seek(map, self.chunk + 1, 0);
                    if at < map.len() {
                        Action::Fetch(at as usize)
                    } else {
                        Action::Failed(StoreError::InsufficientShards)
                    }
                },
            }
        }
    }

    /// Records the outcome of the fetch that was asked for last: the shard, or `None`
    /// where the fetch failed. A shard goes into the slot of its shard index; a failure
    /// is passed over.
    pub fn record_fetch(&mut self, shard: Option<Vec<u8>>)
        requires
            old(self).wf(),
            old(self).awaiting,
        ensures
            final(self).wf(),
            !final(self).awaiting,
            final(self).manifest == old(self).manifest,
            final(self).chunk == old(self).chunk,
            final(self).output == old(self).output,
            final(self).used == old(self).used,
            final(self).cursor == old(self).cursor + 1,
            match shard {
                Some(bytes) => {
                    &&& final(self).fetched == old(self).fetched + 1
                    &&& final(self).slots.deep_view() == old(self).slots.deep_view().update(
                        old(self).manifest.shard_map@[old(self).cursor as int].shard_index as int,
                        Some(bytes@),
                    )
                },
                None => {
                    &&& final(self).fetched == old(self).fetched
                    &&& final(self).slots == old(self).slots
                },
            },
    {
        broadcast use lemma_deep_view_bytes;

        let at: usize = self.cursor;
        let total: usize = self.manifest.shard_map.len();
        assert(at < total);
        let ghost map = self.manifest.shard_map@;
        match shard {
            Some(bytes) => {
                let index: usize = self.manifest.shard_map[at].shard_index;
                let ghost before = self.slots.deep_view();
                proof {
                    if self.slots@[index as int] is Some {
                        let j = choose|j: int|
                            0 <= j < self.cursor && (#[trigger] map[j]).chunk_index == self.chunk
                                && map[j].shard_index == index;
                        assert(map[j].chunk_index == map[at as int].chunk_index);
                    }
                    assert(before[index as int] is None);
                    lemma_fill_slot_count(before, index as int, bytes@);
                }
                self.slots[index] = Some(bytes);
                assert(self.slots.deep_view() =~= before.update(index as int, Some(bytes@)));
                self.fetched = self.fetched + 1;
                self.cursor = at + 1;
                self.awaiting = false;
                assert forall|s: int|
                    0 <= s < self.slots@.len() && (#[trigger] self.slots@[s]) is Some implies exists|
                    j: int,
                |
                    0 <= j < self.cursor && (#[trigger] map[j]).chunk_index == self.chunk
                        && map[j].shard_index == s by {
                    if s == index {
                        assert(map[at as int].shard_index == s);
                    } else {
                        assert(old(self).slots@[s] is Some);
                        let j = choose|j: int|
                            0 <= j < at && (#[trigger] map[j]).chunk_index == self.chunk
                                && map[j].shard_index == s;
                        assert(map[j].shard_index == s);
                    }
                }
            },
            None => {
                self.cursor = at + 1;
                self.awaiting = false;
                assert forall|s: int|
                    0 <= s < self.slots@.len() && (#[trigger] self.slots@[s]) is Some implies exists|
                    j: int,
                |
                    0 <= j < self.cursor && (#[trigger] map[j]).chunk_index == self.chunk
                        && map[j].shard_index == s by {
                    let j = choose|j: int|
                        0 <= j < at && (#[trigger] map[j]).chunk_index == self.chunk
                            && map[j].shard_index == s;
                    assert(map[j].shard_index == s);
                }
            },
        }
    }

    /// The file: the decoded chunks end to end, cut to the size that the manifest
    /// records.
    pub fn into_file(self) -> (file: Vec<u8>)
        requires
            self.wf(),
            self.done(),
        ensures
            file@ == cut_to_size(
                decoded_chunks(
                    self.manifest.chunks@,
                    self.manifest.encryption_key@,
                    self.used@,
                    self.manifest.chunk_count as nat,
                ),
                self.manifest.file_size as nat,
            ),
    {
        let mut file = self.output;
        file.truncate(self.manifest.file_size);
        file
    }
}

/// A download restores the file that was uploaded: where each chunk is decoded from at
/// least six of the shards that the upload sent for it, whichever six they are, every
/// chunk decodes to the chunk of the file, and the chunks end to end, cut to the size of
/// the file, are the file.
pub proof fn lemma_download_restores_upload(
    file: Seq<u8>,
    key: Seq<u8>,
    chunks: Seq<ChunkInfo>,
    sent: Seq<Seq<Seq<u8>>>,
    used: Seq<Seq<Option<Seq<u8>>>>,
)
    requires
        was_sent(file, key, chunks, sent),
        chunks.len() == chunk_count(file.len()),
        used.len() == sent.len(),
        forall|i: int|
            0 <= i < sent.len() ==> erasure_of(#[trigger] used[i], sent[i]) && present_count(
                used[i],
            ) >= DATA_SHARDS,
    ensures
        forall|i: int|
            0 <= i < chunks.len() ==> chunk_outcome(chunks[i], key, #[trigger] used[i]) == Ok::<
                Seq<u8>,
                StoreError,
            >(chunk_of(file, i as nat)),
        decoded_chunks(chunks, key, used, chunks.len()) == file,
        cut_to_size(decoded_chunks(chunks, key, used, chunks.len()), file.len()) == file,
{
    lemma_chunks_decode(file, key, chunks, sent, used, chunks.len());
    lemma_chunks_partition(file);
    assert(file.take(file.len() as int) =~= file);
}

/// The first `count` chunks decode to the first `count` chunks of the file.
proof fn lemma_chunks_decode(
    file: Seq<u8>,
    key: Seq<u8>,
    chunks: Seq<ChunkInfo>,
    sent: Seq<Seq<Seq<u8>>>,
    used: Seq<Seq<Option<Seq<u8>>>>,
    count: nat,
)
    requires
        was_sent(file, key, chunks, sent),
        chunks.len() == chunk_count(file.len()),
        used.len() == sent.len(),
        count <= chunks.len(),
        forall|i: int|
            0 <= i < sent.len() ==> erasure_of(#[trigger] used[i], sent[i]) && present_count(
                used[i],
            ) >= DATA_SHARDS,
    ensures
        forall|i: int|
            0 <= i < count ==> chunk_outcome(chunks[i], key, #[trigger] used[i]) == Ok::<
                Seq<u8>,
                StoreError,
            >(chunk_of(file, i as nat)),
        decoded_chunks(chunks, key, used, count) == concat_chunks(file, count),
    decreases count,
{
    if count > 0 {
        let i = count - 1;
        lemma_chunks_decode(file, key, chunks, sent, used, i as nat);
        lemma_chunks_partition(file);
        let chunk = chunk_of(file, i as nat);
        assert(chunk.len() <= CHUNK_SIZE);
        assert(erasure_of(used[i], sent[i]));
        assert(crate::upload::chunk_sent(chunk, key, chunks[i], sent[i]));
        assert(chunk_outcome(chunks[i], key, used[i]) == Ok::<Seq<u8>, StoreError>(chunk));
    }
}

/// A download fails on a chunk that was tampered with: where the ciphertext gathered for
/// the current chunk is one that the cipher rejects, a corrupt ciphertext is what is due,
/// and by the contract of `next_action` nothing is appended to the output.
pub proof fn lemma_rejected_chunk_fails_download(download: Download)
    requires
        download.wf(),
        !download.done(),
        download.fetched == DATA_SHARDS,
        ({
            let info = download.manifest.chunks@[download.chunk as int];
            gathered(download.slots.deep_view(), info.encrypted_size as nat) matches Ok(
                ciphertext,
            ) && chacha20poly1305_opened(
                download.manifest.encryption_key@,
                info.nonce@,
                ciphertext,
            ) is None
        }),
    ensures
        download.action_due() == Action::Failed(StoreError::CorruptCiphertext),
{
    let info = download.manifest.chunks@[download.chunk as int];
    lemma_rejected_ciphertext_fails(
        download.slots.deep_view(),
        info.encrypted_size as nat,
        download.manifest.encryption_key@,
        info.nonce@,
    );
}

/// Ten empty slots.
pub fn blank_slots() -> (slots: Vec<Option<Vec<u8>>>)
    ensures
        slots.deep_view() == empty_slots(),
        slots@.len() == TOTAL_SHARDS,
        forall|i: int| 0 <= i < TOTAL_SHARDS ==> (#[trigger] slots@[i]) is None,
{
    let mut slots: Vec<Option<Vec<u8>>> = Vec::new();
    let mut i: usize = 0;
    while i < TOTAL_SHARDS
        invariant
            i <= TOTAL_SHARDS,
            slots@.len() == i,
            forall|k: int| 0 <= k < i ==> (#[trigger] slots@[k]) is None,
        decreases TOTAL_SHARDS - i,
    {
        slots.push(None);
        i = i + 1;
    }
    assert(slots.deep_view() =~= empty_slots());
    slots
}

} // verus!
