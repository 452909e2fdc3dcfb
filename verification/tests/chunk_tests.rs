use vishwarupa::chunk::{decode_chunk, encode_chunk, encode_chunk_with_nonce};
use vishwarupa::error::StoreError;

fn all_slots(shards: &[Vec<u8>]) -> Vec<Option<Vec<u8>>> {
    shards.iter().cloned().map(Some).collect()
}

#[test]
fn a_chunk_is_encoded_into_ten_equal_shards() {
    let chunk: Vec<u8> = (0..1000u32).map(|i| (i * 31 % 251) as u8).collect();
    let key = [7u8; 32];
    let nonce = [9u8; 12];
    let encoded = encode_chunk_with_nonce(&chunk, 4, &key, &nonce).unwrap();
    assert_eq!(encoded.info.chunk_index, 4);
    assert_eq!(encoded.info.nonce, nonce.to_vec());
    let packed = vishwarupa::codec::compress(&chunk).unwrap();
    let sealed = vishwarupa::crypto::seal(&packed, &key, &nonce).unwrap();
    assert_eq!(encoded.info.encrypted_size, sealed.len());
    assert_eq!(encoded.shards.len(), 10);
    let size = (sealed.len() + 5) / 6;
    for shard in &encoded.shards {
        assert_eq!(shard.len(), size);
    }
    let mut joined = encoded.shards[..6].concat();
    joined.truncate(sealed.len());
    assert_eq!(joined, sealed);
}

#[test]
fn encoding_is_determined_by_chunk_key_and_nonce() {
    let key = [7u8; 32];
    let one = encode_chunk_with_nonce(b"some bytes", 0, &key, &[1u8; 12]).unwrap();
    let two = encode_chunk_with_nonce(b"some bytes", 0, &key, &[1u8; 12]).unwrap();
    let other = encode_chunk_with_nonce(b"some bytes", 0, &key, &[2u8; 12]).unwrap();
    assert_eq!(one.shards, two.shards);
    assert_ne!(one.shards, other.shards);
    let fresh = encode_chunk(b"some bytes", 0, &key).unwrap();
    assert_eq!(fresh.info.nonce.len(), 12);
    let again = encode_chunk_with_nonce(b"some bytes", 0, &key, &fresh.info.nonce).unwrap();
    assert_eq!(fresh.shards, again.shards);
}

#[test]
fn a_chunk_decodes_from_any_six_of_its_shards() {
    let chunk: Vec<u8> = (0..5000u32).map(|i| (i * 17 % 256) as u8).collect();
    let key = [7u8; 32];
    let encoded = encode_chunk(&chunk, 0, &key).unwrap();
    let size = encoded.info.encrypted_size;
    let nonce = encoded.info.nonce.clone();
    let mut tried = 0;
    for mask in 0u32..1024 {
        if mask.count_ones() != 6 {
            continue;
        }
        let slots: Vec<Option<Vec<u8>>> = (0..10)
            .map(|i| if mask & (1 << i) != 0 { Some(encoded.shards[i].clone()) } else { None })
            .collect();
        assert_eq!(decode_chunk(slots, size, &key, &nonce), Ok(chunk.clone()));
        tried += 1;
    }
    assert_eq!(tried, 210);
    assert_eq!(decode_chunk(all_slots(&encoded.shards), size, &key, &nonce), Ok(chunk));
}

#[test]
fn a_chunk_does_not_decode_from_five_shards() {
    let encoded = encode_chunk(b"abcdefghijklmnopqrstuvwxyz", 0, &[7u8; 32]).unwrap();
    let mut slots = all_slots(&encoded.shards);
    for i in [0, 2, 4, 6, 8] {
        slots[i] = None;
    }
    assert_eq!(
        decode_chunk(slots, encoded.info.encrypted_size, &[7u8; 32], &encoded.info.nonce),
        Err(StoreError::InsufficientShards)
    );
}

#[test]
fn decoding_fails_on_wrong_key_nonce_or_size() {
    let key = [7u8; 32];
    let encoded = encode_chunk(b"abcdefghijklmnopqrstuvwxyz", 0, &key).unwrap();
    let size = encoded.info.encrypted_size;
    let nonce = encoded.info.nonce.clone();
    let slots = || all_slots(&encoded.shards);
    assert_eq!(decode_chunk(slots(), size, &[8u8; 32], &nonce), Err(StoreError::CorruptCiphertext));
    let mut other = nonce.clone();
    other[0] ^= 1;
    assert_eq!(decode_chunk(slots(), size, &key, &other), Err(StoreError::CorruptCiphertext));
    assert_eq!(decode_chunk(slots(), size - 1, &key, &nonce), Err(StoreError::CorruptCiphertext));
    assert_eq!(decode_chunk(slots(), size + 1, &key, &nonce), Err(StoreError::CorruptCiphertext));
    assert_eq!(decode_chunk(slots(), size, &key[..8], &nonce), Err(StoreError::InvalidKey));
    assert_eq!(decode_chunk(slots(), size, &key, &nonce[..4]), Err(StoreError::InvalidKey));
    assert_eq!(decode_chunk(Vec::new(), size, &key, &nonce), Err(StoreError::ShardLengthMismatch));
}

#[test]
fn a_flipped_bit_in_a_data_shard_is_detected() {
    let key = [7u8; 32];
    let encoded = encode_chunk(&[5u8; 300], 0, &key).unwrap();
    let mut slots = all_slots(&encoded.shards);
    slots[0].as_mut().unwrap()[0] ^= 0x04;
    assert_eq!(
        decode_chunk(slots, encoded.info.encrypted_size, &key, &encoded.info.nonce),
        Err(StoreError::CorruptCiphertext)
    );
}

#[test]
fn a_flipped_bit_in_a_parity_shard_is_detected_when_it_is_used() {
    let key = [7u8; 32];
    let encoded = encode_chunk(&[5u8; 300], 0, &key).unwrap();
    let mut slots = all_slots(&encoded.shards);
    slots[0] = None;
    slots[7] = None;
    slots[8] = None;
    slots[9] = None;
    slots[6].as_mut().unwrap()[1] ^= 0x40;
    assert_eq!(
        decode_chunk(slots, encoded.info.encrypted_size, &key, &encoded.info.nonce),
        Err(StoreError::CorruptCiphertext)
    );
}

#[test]
fn encoding_refuses_a_key_of_wrong_length() {
    assert_eq!(encode_chunk(b"abc", 0, &[7u8; 16]).err(), Some(StoreError::InvalidKey));
    assert_eq!(
        encode_chunk_with_nonce(b"abc", 0, &[7u8; 32], &[0u8; 8]).err(),
        Some(StoreError::InvalidKey)
    );
}
