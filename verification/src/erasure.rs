//! Cutting a ciphertext into equal shards, and Reed-Solomon coding over them.

use vstd::prelude::*;
use crate::bytes::{append_bytes, lemma_deep_view_bytes};
use crate::error::StoreError;
use crate::params::{DATA_SHARDS, PARITY_SHARDS, TOTAL_SHARDS};

verus! {

/// Length of each shard of a ciphertext of `len` bytes: `len / 6`, rounded up.
pub open spec fn shard_size(len: nat) -> nat {
    ((len + DATA_SHARDS - 1) / (DATA_SHARDS as int)) as nat
}

/// The `index`-th slice of `size` bytes of `bytes`, with zeros where `bytes` has ended.
pub open spec fn padded_slice(bytes: Seq<u8>, index: int, size: nat) -> Seq<u8> {
    Seq::new(
        size,
        |j: int|
            if index * size + j < bytes.len() {
                bytes[index * size + j]
            } else {
                0u8
            },
    )
}

/// The six data shards of a ciphertext: contiguous slices of `shard_size` bytes, the tail
/// padded with zeros.
pub open spec fn data_shards(bytes: Seq<u8>) -> Seq<Seq<u8>> {
    Seq::new(DATA_SHARDS as nat, |i: int| padded_slice(bytes, i, shard_size(bytes.len())))
}

/// All shards have the same, non-zero length.
pub open spec fn shards_uniform(shards: Seq<Seq<u8>>) -> bool {
    &&& shards.len() > 0
    &&& shards[0].len() > 0
    &&& forall|i: int| 0 <= i < shards.len() ==> (#[trigger] shards[i]).len() == shards[0].len()
}

/// Number of slots that hold a shard.
pub open spec fn present_count(slots: Seq<Option<Seq<u8>>>) -> nat
    decreases slots.len(),
{
    if slots.len() == 0 {
        0
    } else {
        present_count(slots.drop_last()) + if slots.last() is Some {
            1nat
        } else {
            0nat
        }
    }
}

/// The shards at hand all have the same, non-zero length.
pub open spec fn slots_uniform(slots: Seq<Option<Seq<u8>>>) -> bool {
    &&& forall|i: int|
        0 <= i < slots.len() && (#[trigger] slots[i]) is Some ==> slots[i]->0.len() > 0
    &&& forall|i: int, j: int|
        0 <= i < slots.len() && 0 <= j < slots.len() && (#[trigger] slots[i]) is Some && (
        #[trigger] slots[j]) is Some ==> slots[i]->0.len() == slots[j]->0.len()
}

/// `slots` is `shards` with some of the shards missing.
pub open spec fn erasure_of(slots: Seq<Option<Seq<u8>>>, shards: Seq<Seq<u8>>) -> bool {
    &&& slots.len() == shards.len()
    &&& forall|i: int|
        0 <= i < slots.len() && (#[trigger] slots[i]) is Some ==> slots[i]->0 == shards[i]
}

/// `slots` with its first `data_count` slots filled from `data`.
pub open spec fn with_data(
    data_count: nat,
    slots: Seq<Option<Seq<u8>>>,
    data: Seq<Seq<u8>>,
) -> Seq<Option<Seq<u8>>> {
    Seq::new(
        slots.len(),
        |i: int|
            if i < data_count {
                Some(data[i])
            } else {
                slots[i]
            },
    )
}

/// The parity shards that `ReedSolomon::encode` of the crate reed-solomon-erasure computes
/// over GF(2^8) for the given data shards, with a codec of `data_count` data and
/// `parity_count` parity shards.
pub uninterp spec fn rs_parity(data_count: nat, parity_count: nat, data: Seq<Seq<u8>>) -> Seq<
    Seq<u8>,
>;

/// The data shards that stand in the first `data_count` slots after
/// `ReedSolomon::reconstruct_data` of the crate reed-solomon-erasure has run on `slots`.
pub uninterp spec fn rs_data(
    data_count: nat,
    parity_count: nat,
    slots: Seq<Option<Seq<u8>>>,
) -> Seq<Seq<u8>>;

/// `coded` is the code word of `data`: the data shards, then their parity shards, each as
/// long as a data shard. Whenever at least `data_count` of its shards are at hand,
/// reconstruction gives the data shards back.
pub open spec fn is_codeword(
    data_count: nat,
    parity_count: nat,
    data: Seq<Seq<u8>>,
    coded: Seq<Seq<u8>>,
) -> bool {
    &&& coded == data + rs_parity(data_count, parity_count, data)
    &&& rs_parity(data_count, parity_count, data).len() == parity_count
    &&& forall|i: int|
        0 <= i < parity_count ==> (#[trigger] rs_parity(data_count, parity_count, data)[i]).len()
            == data[0].len()
    &&& forall|slots: Seq<Option<Seq<u8>>>|
        erasure_of(slots, coded) && present_count(slots) >= data_count ==> #[trigger] rs_data(
            data_count,
            parity_count,
            slots,
        ) == data
}

/// What the codec accepts for encoding: as many shards as it has slots, of one non-zero length.
pub open spec fn encodable(data_count: nat, parity_count: nat, shards: Seq<Seq<u8>>) -> bool {
    shards.len() == data_count + parity_count && shards_uniform(shards)
}

/// What the codec can reconstruct from: as many slots as it has shards, those at hand of one
/// non-zero length, and at least `data_count` of them.
pub open spec fn recoverable(
    data_count: nat,
    parity_count: nat,
    slots: Seq<Option<Seq<u8>>>,
) -> bool {
    &&& slots.len() == data_count + parity_count
    &&& slots_uniform(slots)
    &&& present_count(slots) >= data_count
}

/// `slots` after a reconstruction of its data: every shard that was at hand is unchanged,
/// the data slots are all filled with shards of the common length, and slots of missing
/// parity shards stay empty.
pub open spec fn is_reconstruction(
    data_count: nat,
    parity_count: nat,
    before: Seq<Option<Seq<u8>>>,
    after: Seq<Option<Seq<u8>>>,
) -> bool {
    let data = rs_data(data_count, parity_count, before);
    &&& after == with_data(data_count, before, data)
    &&& data.len() == data_count
    &&& forall|i: int|
        0 <= i < data_count && (#[trigger] before[i]) is Some ==> data[i] == before[i]->0
    &&& forall|i: int, j: int|
        0 <= i < data_count && 0 <= j < before.len() && (#[trigger] before[j]) is Some ==> (
        #[trigger] data[i]).len() == before[j]->0.len()
}

/// The error type of the crate reed-solomon-erasure, of which nothing is read but that it
/// is an error.
#[verifier::external_type_specification]
#[verifier::external_body]
pub struct ExReedSolomonError(reed_solomon_erasure::Error);

/// Calls `ReedSolomon::new` and `ReedSolomon::encode` of reed-solomon-erasure over GF(2^8).
///
/// The contract claims: the call succeeds exactly on `data_count + parity_count` shards of
/// one non-zero length; it then leaves the data shards as they were and overwrites the
/// others with the parity, and any `data_count` shards of the outcome suffice for
/// `reconstruct_data` to give the data shards back. On an error nothing is written.
#[verifier::external_body]
fn rs_encode(data_count: usize, parity_count: usize, shards: &mut Vec<Vec<u8>>) -> (res: Result<
    (),
    reed_solomon_erasure::Error,
>)
    requires
        0 < data_count,
        0 < parity_count,
        data_count + parity_count <= 256,
    ensures
        res is Ok <==> encodable(data_count as nat, parity_count as nat, old(shards).deep_view()),
        res is Ok ==> final(shards).deep_view() == old(shards).deep_view().take(data_count as int)
            + rs_parity(
            data_count as nat,
            parity_count as nat,
            old(shards).deep_view().take(data_count as int),
        ),
        res is Ok ==> is_codeword(
            data_count as nat,
            parity_count as nat,
            old(shards).deep_view().take(data_count as int),
            final(shards).deep_view(),
        ),
        res is Err ==> final(shards).deep_view() == old(shards).deep_view(),
{
    reed_solomon_erasure::galois_8::ReedSolomon::new(data_count, parity_count)?.encode(shards)
}

/// Calls `ReedSolomon::new` and `ReedSolomon::reconstruct_data` of reed-solomon-erasure over
/// GF(2^8).
///
/// The contract claims: the call succeeds exactly on `data_count + parity_count` slots of
/// which at least `data_count` hold a shard, the shards being of one non-zero length; it
/// then fills the empty data slots and touches nothing else. On an error nothing is written.
#[verifier::external_body]
fn rs_reconstruct_data(
    data_count: usize,
    parity_count: usize,
    slots: &mut Vec<Option<Vec<u8>>>,
) -> (res: Result<(), reed_solomon_erasure::Error>)
    requires
        0 < data_count,
        0 < parity_count,
        data_count + parity_count <= 256,
    ensures
        res is Ok <==> recoverable(data_count as nat, parity_count as nat, old(slots).deep_view()),
        res is Ok ==> final(slots).deep_view() == with_data(
            data_count as nat,
            old(slots).deep_view(),
            rs_data(data_count as nat, parity_count as nat, old(slots).deep_view()),
        ),
        res is Ok ==> is_reconstruction(
            data_count as nat,
            parity_count as nat,
            old(slots).deep_view(),
            final(slots).deep_view(),
        ),
        res is Err ==> final(slots).deep_view() == old(slots).deep_view(),
{
    reed_solomon_erasure::galois_8::ReedSolomon::new(data_count, parity_count)?.reconstruct_data(
        slots,
    )
}

/// Fills the four parity shards of a chunk.
///
/// Takes ten shards of one non-zero length, the first six holding the data; what the last
/// four hold is overwritten. Anything else is refused and left as it was.
pub fn encode(shards: &mut Vec<Vec<u8>>) -> (res: Result<(), StoreError>)
    ensures
        res is Ok <==> encodable(
            DATA_SHARDS as nat,
            PARITY_SHARDS as nat,
            old(shards).deep_view(),
        ),
        res is Ok ==> is_codeword(
            DATA_SHARDS as nat,
            PARITY_SHARDS as nat,
            old(shards).deep_view().take(DATA_SHARDS as int),
            final(shards).deep_view(),
        ),
        res matches Err(e) ==> e == StoreError::ShardLengthMismatch && final(shards).deep_view()
            == old(shards).deep_view(),
{
    match rs_encode(DATA_SHARDS, PARITY_SHARDS, shards) {
        Ok(()) => Ok(()),
        Err(_) => Err(StoreError::ShardLengthMismatch),
    }
}

/// Why a vector of slots cannot be reconstructed, if it cannot: a wrong shape comes before
/// a lack of shards.
pub open spec fn reconstruct_failure(slots: Seq<Option<Seq<u8>>>) -> Option<StoreError> {
    if slots.len() != TOTAL_SHARDS || !slots_uniform(slots) {
        Some(StoreError::ShardLengthMismatch)
    } else if present_count(slots) < DATA_SHARDS {
        Some(StoreError::InsufficientShards)
    } else {
        None
    }
}

/// Counts the slots that hold a shard.
pub fn count_present(slots: &Vec<Option<Vec<u8>>>) -> (count: usize)
    ensures
        count == present_count(slots.deep_view()),
        count <= slots@.len(),
{
    let ghost all = slots.deep_view();
    let mut count: usize = 0;
    let mut i: usize = 0;
    while i < slots.len()
        invariant
            i <= slots@.len(),
            all == slots.deep_view(),
            count <= i,
            count == present_count(all.take(i as int)),
        decreases slots@.len() - i,
    {
        assert(all.take(i + 1).drop_last() =~= all.take(i as int));
        if slots[i].is_some() {
            count = count + 1;
        }
        i = i + 1;
    }
    assert(all.take(i as int) =~= all);
    count
}

/// Tells whether the shards at hand all have the same, non-zero length.
pub fn check_uniform(slots: &Vec<Option<Vec<u8>>>) -> (uniform: bool)
    ensures
        uniform == slots_uniform(slots.deep_view()),
{
    let ghost all = slots.deep_view();
    let mut first: Option<usize> = None;
    let mut i: usize = 0;
    while i < slots.len()
        invariant
            i <= slots@.len(),
            all == slots.deep_view(),
            first is None ==> forall|k: int| 0 <= k < i ==> (#[trigger] all[k]) is None,
            first matches Some(len) ==> len > 0 && exists|w: int|
                0 <= w < i && (#[trigger] all[w]) is Some && all[w]->0.len() == len,
            first matches Some(len) ==> forall|k: int|
                0 <= k < i && (#[trigger] all[k]) is Some ==> all[k]->0.len() == len,
        decreases slots@.len() - i,
    {
        match &slots[i] {
            Some(shard) => {
                let len: usize = shard.len();
                match first {
                    Some(expected) => {
                        if len != expected {
                            return false;
                        }
                    },
                    None => {
                        if len == 0 {
                            return false;
                        }
                        first = Some(len);
                    },
                }
            },
            None => {
                assert(all[i as int] is None);
            },
        }
        i = i + 1;
    }
    true
}

/// Recovers the missing data shards of a chunk.
///
/// Takes ten slots, at least six of them filled with shards of one non-zero length. The
/// empty ones among the first six are filled; nothing else changes. Slots of a wrong shape
/// are refused before too few of them are, and a refusal leaves them as they were.
pub fn reconstruct(slots: &mut Vec<Option<Vec<u8>>>) -> (res: Result<(), StoreError>)
    ensures
        match res {
            Ok(()) => reconstruct_failure(old(slots).deep_view()) is None && is_reconstruction(
                DATA_SHARDS as nat,
                PARITY_SHARDS as nat,
                old(slots).deep_view(),
                final(slots).deep_view(),
            ),
            Err(e) => {
                &&& reconstruct_failure(old(slots).deep_view()) == Some(e)
                &&& final(slots).deep_view() == old(slots).deep_view()
            },
        },
{
    if slots.len() != TOTAL_SHARDS || !check_uniform(slots) {
        return Err(StoreError::ShardLengthMismatch);
    }
    if count_present(slots) < DATA_SHARDS {
        return Err(StoreError::InsufficientShards);
    }
    match rs_reconstruct_data(DATA_SHARDS, PARITY_SHARDS, slots) {
        Ok(()) => Ok(()),
        Err(_) => Err(StoreError::ShardLengthMismatch),
    }
}

/// What a slot contributes to the joined data: its shard, or nothing.
pub open spec fn slot_bytes(slot: Option<Seq<u8>>) -> Seq<u8> {
    match slot {
        Some(shard) => shard,
        None => Seq::empty(),
    }
}

/// The shards of `slots` laid end to end.
pub open spec fn concat_slots(slots: Seq<Option<Seq<u8>>>) -> Seq<u8>
    decreases slots.len(),
{
    if slots.len() == 0 {
        Seq::empty()
    } else {
        concat_slots(slots.drop_last()) + slot_bytes(slots.last())
    }
}

/// The first `len` bytes of the data shards laid end to end, or all of them if they are fewer.
pub open spec fn joined(slots: Seq<Option<Seq<u8>>>, len: nat) -> Seq<u8> {
    let data = if slots.len() < DATA_SHARDS {
        slots
    } else {
        slots.take(DATA_SHARDS as int)
    };
    let whole = concat_slots(data);
    if len < whole.len() {
        whole.take(len as int)
    } else {
        whole
    }
}

/// Lays the data shards end to end and cuts the result to `len` bytes.
pub fn join_data(slots: &Vec<Option<Vec<u8>>>, len: usize) -> (bytes: Vec<u8>)
    ensures
        bytes@ == joined(slots.deep_view(), len as nat),
{
    broadcast use lemma_deep_view_bytes;

    let ghost all = slots.deep_view();
    let count: usize = if slots.len() < DATA_SHARDS {
        slots.len()
    } else {
        DATA_SHARDS
    };
    let mut bytes: Vec<u8> = Vec::new();
    let mut i: usize = 0;
    while i < count
        invariant
            i <= count <= slots@.len(),
            all == slots.deep_view(),
            bytes@ == concat_slots(all.take(i as int)),
        decreases count - i,
    {
        assert(all.take(i + 1).drop_last() =~= all.take(i as int));
        match &slots[i] {
            Some(shard) => {
                append_bytes(&mut bytes, shard.as_slice());
            },
            None => {
                assert(all[i as int] is None);
            },
        }
        i = i + 1;
    }
    assert(slots@.len() < DATA_SHARDS ==> all.take(i as int) =~= all);
    bytes.truncate(len);
    bytes
}

/// `bytes` followed by zeros, `len` bytes in all (a prefix of `bytes` if `len` is smaller).
pub open spec fn zero_padded(bytes: Seq<u8>, len: nat) -> Seq<u8> {
    Seq::new(
        len,
        |j: int|
            if j < bytes.len() {
                bytes[j]
            } else {
                0u8
            },
    )
}

/// The first `count` data shards of a byte string, laid end to end, are the string padded
/// with zeros.
proof fn lemma_concat_data_shards(bytes: Seq<u8>, slots: Seq<Option<Seq<u8>>>, count: nat)
    requires
        count <= DATA_SHARDS <= slots.len(),
        forall|i: int|
            0 <= i < DATA_SHARDS ==> (#[trigger] slots[i]) == Some(data_shards(bytes)[i]),
    ensures
        concat_slots(slots.take(count as int)) == zero_padded(
            bytes,
            count * shard_size(bytes.len()),
        ),
    decreases count,
{
    let size = shard_size(bytes.len());
    if count == 0 {
        assert(concat_slots(slots.take(0)) =~= zero_padded(bytes, 0));
    } else {
        let before = (count - 1) as nat;
        lemma_concat_data_shards(bytes, slots, before);
        assert(slots.take(count as int).drop_last() =~= slots.take(before as int));
        assert(slots.take(count as int).last() == slots[before as int]);
        assert(count * size == before * size + size) by (nonlinear_arith)
            requires
                count == before + 1,
        ;
        assert(zero_padded(bytes, before * size) + padded_slice(bytes, before as int, size)
            =~= zero_padded(bytes, count * size));
    }
}

/// Cutting a byte string into data shards, laying them end to end and cutting the result
/// to the string's length gives the string back, whatever the other slots hold.
pub proof fn lemma_join_of_split(bytes: Seq<u8>, slots: Seq<Option<Seq<u8>>>)
    requires
        slots.len() >= DATA_SHARDS,
        forall|i: int|
            0 <= i < DATA_SHARDS ==> (#[trigger] slots[i]) == Some(data_shards(bytes)[i]),
    ensures
        joined(slots, bytes.len()) == bytes,
{
    let size = shard_size(bytes.len());
    lemma_concat_data_shards(bytes, slots, DATA_SHARDS as nat);
    assert((DATA_SHARDS as nat) * size >= bytes.len());
    assert(slots.len() == DATA_SHARDS ==> slots.take(DATA_SHARDS as int) =~= slots);
    let whole = zero_padded(bytes, (DATA_SHARDS as nat) * size);
    if bytes.len() < whole.len() {
        assert(whole.take(bytes.len() as int) =~= bytes);
    } else {
        assert(whole =~= bytes);
    }
}

/// Computes `shard_size`.
pub fn shard_size_of(len: usize) -> (size: usize)
    ensures
        size == shard_size(len as nat),
        size * DATA_SHARDS >= len,
        size * DATA_SHARDS < len + DATA_SHARDS,
{
    let whole: usize = len / DATA_SHARDS;
    if len % DATA_SHARDS == 0 {
        whole
    } else {
        whole + 1
    }
}

/// Cuts a ciphertext into its six data shards.
pub fn split_into_shards(bytes: &[u8]) -> (shards: Vec<Vec<u8>>)
    ensures
        shards.deep_view() == data_shards(bytes@),
        shards@.len() == DATA_SHARDS,
        forall|i: int|
            0 <= i < DATA_SHARDS ==> (#[trigger] shards@[i])@.len() == shard_size(bytes@.len()),
{
    let size: usize = shard_size_of(bytes.len());
    let mut shards: Vec<Vec<u8>> = Vec::new();
    let mut i: usize = 0;
    while i < DATA_SHARDS
        invariant
            i <= DATA_SHARDS,
            bytes@.len() <= usize::MAX,
            size == shard_size(bytes@.len()),
            size * DATA_SHARDS < bytes@.len() + DATA_SHARDS,
            shards@.len() == i,
            forall|k: int|
                0 <= k < i ==> (#[trigger] shards@[k])@ == padded_slice(bytes@, k, size as nat),
        decreases DATA_SHARDS - i,
    {
        assert(i * size <= usize::MAX) by (nonlinear_arith)
            requires
                i < DATA_SHARDS,
                size * DATA_SHARDS < bytes@.len() + DATA_SHARDS,
                bytes@.len() <= usize::MAX,
        ;
        let start: usize = i * size;
        let mut shard: Vec<u8> = Vec::new();
        let mut j: usize = 0;
        while j < size
            invariant
                j <= size,
                i < DATA_SHARDS,
                start == i * size,
                size * DATA_SHARDS < bytes@.len() + DATA_SHARDS,
                shard@.len() == j,
                forall|k: int|
                    0 <= k < j ==> #[trigger] shard@[k] == padded_slice(
                        bytes@,
                        i as int,
                        size as nat,
                    )[k],
            decreases size - j,
        {
            let byte: u8 = if start < bytes.len() && j < bytes.len() - start {
                bytes[start + j]
            } else {
                0
            };
            shard.push(byte);
            j = j + 1;
        }
        shards.push(shard);
        i = i + 1;
    }
    assert(shards.deep_view() =~= data_shards(bytes@)) by {
        assert forall|k: int| 0 <= k < DATA_SHARDS implies #[trigger] shards.deep_view()[k]
            == data_shards(bytes@)[k] by {
            assert(shards@[k].deep_view() =~= shards@[k]@);
        }
    }
    shards
}

/// The ten shards of a byte string: its six data shards, then their parity.
pub open spec fn coded_shards(bytes: Seq<u8>) -> Seq<Seq<u8>> {
    data_shards(bytes) + rs_parity(DATA_SHARDS as nat, PARITY_SHARDS as nat, data_shards(bytes))
}

/// What gathering a byte string of `len` bytes from slots gives: slots that cannot be
/// reconstructed are refused; else the data shards are recovered, laid end to end and cut
/// to `len` bytes.
pub open spec fn gathered(slots: Seq<Option<Seq<u8>>>, len: nat) -> Result<Seq<u8>, StoreError> {
    match reconstruct_failure(slots) {
        Some(e) => Err(e),
        None => Ok(
            joined(
                with_data(
                    DATA_SHARDS as nat,
                    slots,
                    rs_data(DATA_SHARDS as nat, PARITY_SHARDS as nat, slots),
                ),
                len,
            ),
        ),
    }
}

/// Whichever six or more of `shards` are at hand, `bytes` is gathered from them.
pub open spec fn gathers_from_any_six(shards: Seq<Seq<u8>>, bytes: Seq<u8>) -> bool {
    forall|slots: Seq<Option<Seq<u8>>>|
        erasure_of(slots, shards) && present_count(slots) >= DATA_SHARDS ==> #[trigger] gathered(
            slots,
            bytes.len(),
        ) == Ok::<Seq<u8>, StoreError>(bytes)
}

/// A buffer of `len` zero bytes.
pub fn zeros(len: usize) -> (bytes: Vec<u8>)
    ensures
        bytes@.len() == len,
        forall|i: int| 0 <= i < len ==> bytes@[i] == 0,
{
    let mut bytes: Vec<u8> = Vec::new();
    let mut i: usize = 0;
    while i < len
        invariant
            i <= len,
            bytes@.len() == i,
            forall|k: int| 0 <= k < i ==> bytes@[k] == 0,
        decreases len - i,
    {
        bytes.push(0);
        i = i + 1;
    }
    bytes
}

/// From six or more shards of a byte string's code word, reconstruction and joining give
/// the string back.
proof fn lemma_gather_of_erasure(bytes: Seq<u8>, coded: Seq<Seq<u8>>, slots: Seq<Option<Seq<u8>>>)
    requires
        bytes.len() > 0,
        is_codeword(DATA_SHARDS as nat, PARITY_SHARDS as nat, data_shards(bytes), coded),
        erasure_of(slots, coded),
        present_count(slots) >= DATA_SHARDS,
    ensures
        gathered(slots, bytes.len()) == Ok::<Seq<u8>, StoreError>(bytes),
{
    let data = data_shards(bytes);
    let size = shard_size(bytes.len());
    assert(size > 0);
    assert(coded.len() == TOTAL_SHARDS);
    assert forall|i: int| 0 <= i < coded.len() implies (#[trigger] coded[i]).len() == size by {
        if i < DATA_SHARDS {
            assert(coded[i] == data[i]);
        } else {
            assert(coded[i] == rs_parity(DATA_SHARDS as nat, PARITY_SHARDS as nat, data)[i
                - DATA_SHARDS]);
            assert(data[0].len() == size);
        }
    }
    assert(rs_data(DATA_SHARDS as nat, PARITY_SHARDS as nat, slots) == data);
    let filled = with_data(DATA_SHARDS as nat, slots, data);
    lemma_join_of_split(bytes, filled);
}

/// Ten shards of `size` bytes each.
pub open spec fn ten_shards_of(shards: Seq<Seq<u8>>, size: nat) -> bool {
    &&& shards.len() == TOTAL_SHARDS
    &&& forall|i: int| 0 <= i < shards.len() ==> (#[trigger] shards[i]).len() == size
}

/// Spreads a byte string over ten shards: its six data shards, then four parity shards,
/// each of `shard_size` bytes.
///
/// The empty string has no shards. Whichever six or more of the ten shards are at hand,
/// the string is gathered from them.
pub fn spread(bytes: &[u8]) -> (res: Result<Vec<Vec<u8>>, StoreError>)
    ensures
        res is Ok <==> bytes@.len() > 0,
        res matches Ok(shards) ==> {
            &&& shards.deep_view() == coded_shards(bytes@)
            &&& shards@.len() == TOTAL_SHARDS
            &&& ten_shards_of(shards.deep_view(), shard_size(bytes@.len()))
            &&& gathers_from_any_six(shards.deep_view(), bytes@)
        },
        res matches Err(e) ==> e == StoreError::ShardLengthMismatch,
{
    let mut shards = split_into_shards(bytes);
    let size: usize = shards[0].len();
    let ghost data = shards.deep_view();
    let mut added: usize = 0;
    while added < PARITY_SHARDS
        invariant
            added <= PARITY_SHARDS,
            shards@.len() == DATA_SHARDS + added,
            shards.deep_view().take(DATA_SHARDS as int) == data,
            data == data_shards(bytes@),
            size == shard_size(bytes@.len()),
            forall|k: int|
                DATA_SHARDS <= k < shards@.len() ==> (#[trigger] shards@[k])@.len() == size,
        decreases PARITY_SHARDS - added,
    {
        let ghost before = shards.deep_view();
        shards.push(zeros(size));
        assert(shards.deep_view().take(DATA_SHARDS as int) =~= before.take(DATA_SHARDS as int));
        added = added + 1;
    }
    let ghost placed = shards.deep_view();
    proof {
        assert forall|k: int| 0 <= k < placed.len() implies (#[trigger] placed[k]).len()
            == size by {
            lemma_deep_view_bytes(shards@[k]);
            if k < DATA_SHARDS {
                assert(placed[k] == placed.take(DATA_SHARDS as int)[k]);
            }
        }
    }
    match encode(&mut shards) {
        Ok(()) => {},
        Err(e) => {
            return Err(e);
        },
    }
    proof {
        let coded = shards.deep_view();
        assert(coded == coded_shards(bytes@));
        assert forall|slots: Seq<Option<Seq<u8>>>|
            erasure_of(slots, coded) && present_count(slots)
                >= DATA_SHARDS implies #[trigger] gathered(slots, bytes@.len()) == Ok::<
            Seq<u8>,
            StoreError,
        >(bytes@) by {
            lemma_gather_of_erasure(bytes@, coded, slots);
        }
    }
    Ok(shards)
}

/// Gathers a byte string of `len` bytes from the shards at hand, each in the slot of its
/// shard index.
pub fn gather(slots: Vec<Option<Vec<u8>>>, len: usize) -> (res: Result<Vec<u8>, StoreError>)
    ensures
        match res {
            Ok(bytes) => gathered(slots.deep_view(), len as nat) == Ok::<Seq<u8>, StoreError>(
                bytes@,
            ),
            Err(e) => gathered(slots.deep_view(), len as nat) == Err::<Seq<u8>, StoreError>(e),
        },
{
    let mut slots = slots;
    match reconstruct(&mut slots) {
        Ok(()) => Ok(join_data(&slots, len)),
        Err(e) => Err(e),
    }
}

} // verus!
