use vishwarupa::manifest::{
    check_chunks, check_distinct, check_placement, check_range, count_placed, ChunkInfo,
    Manifest, ShardLocation,
};

fn location(chunk: usize, shard: usize) -> ShardLocation {
    ShardLocation {
        chunk_index: chunk,
        shard_index: shard,
        device_id: "d".to_string(),
        device_address: "10.0.0.1:9000".to_string(),
        shard_id: format!("s-{}-{}", chunk, shard),
        nonce: vec![0u8; 12],
    }
}

fn manifest_of(chunks: usize, shard_map: Vec<ShardLocation>) -> Manifest {
    Manifest {
        file_id: "f".to_string(),
        original_name: "n".to_string(),
        file_size: 10,
        chunk_count: chunks,
        encryption_key: vec![0u8; 32],
        shard_map,
        chunks: (0..chunks)
            .map(|i| ChunkInfo { chunk_index: i, encrypted_size: 20, nonce: vec![1u8; 12] })
            .collect(),
        sync_folder: None,
        tags: Vec::new(),
        created_at: 0,
        last_verified: None,
    }
}

#[test]
fn a_sound_manifest_is_valid() {
    let map = (0..2).flat_map(|c| (0..10).map(move |s| location(c, s))).collect();
    let manifest = manifest_of(2, map);
    assert!(manifest.is_valid());
    assert!(manifest.is_recoverable());
    assert!(manifest_of(0, Vec::new()).is_valid());
    assert!(manifest_of(0, Vec::new()).is_recoverable());
}

#[test]
fn a_manifest_with_a_wrong_key_length_is_invalid() {
    let mut manifest = manifest_of(1, vec![location(0, 0)]);
    manifest.encryption_key = vec![0u8; 16];
    assert!(!manifest.is_valid());
}

#[test]
fn a_manifest_with_wrong_chunk_records_is_invalid() {
    let mut manifest = manifest_of(2, Vec::new());
    manifest.chunk_count = 3;
    assert!(!manifest.is_valid());
    let mut manifest = manifest_of(2, Vec::new());
    manifest.chunks[1].chunk_index = 0;
    assert!(!manifest.is_valid());
    assert!(!check_chunks(&manifest.chunks));
    let mut manifest = manifest_of(2, Vec::new());
    manifest.chunks[0].nonce = vec![0u8; 11];
    assert!(!manifest.is_valid());
    assert!(check_chunks(&manifest_of(3, Vec::new()).chunks));
}

#[test]
fn a_manifest_with_shards_out_of_range_is_invalid() {
    assert!(!manifest_of(1, vec![location(1, 0)]).is_valid());
    assert!(!manifest_of(1, vec![location(0, 10)]).is_valid());
    assert!(manifest_of(1, vec![location(0, 9)]).is_valid());
    assert!(check_range(&vec![location(0, 9), location(4, 0)], 5));
    assert!(!check_range(&vec![location(0, 9), location(5, 0)], 5));
}

#[test]
fn a_manifest_that_names_a_shard_twice_is_invalid() {
    assert!(!manifest_of(2, vec![location(0, 1), location(1, 1), location(0, 1)]).is_valid());
    assert!(manifest_of(2, vec![location(0, 1), location(1, 1), location(1, 0)]).is_valid());
    assert!(check_distinct(&Vec::new()));
    assert!(check_distinct(&vec![location(3, 3)]));
    assert!(!check_distinct(&vec![location(3, 3), location(3, 3)]));
}

#[test]
fn placements_are_counted_per_chunk() {
    let map = vec![location(0, 0), location(1, 0), location(0, 5), location(2, 1), location(0, 9)];
    assert_eq!(count_placed(&map, 0), 3);
    assert_eq!(count_placed(&map, 1), 1);
    assert_eq!(count_placed(&map, 2), 1);
    assert_eq!(count_placed(&map, 3), 0);
    assert_eq!(count_placed(&Vec::new(), 0), 0);
}

#[test]
fn a_file_is_recoverable_with_six_shards_of_every_chunk() {
    let six: Vec<ShardLocation> = (0..6).map(|s| location(0, s)).collect();
    assert!(check_placement(&six, 1));
    assert!(!check_placement(&six, 2));
    assert!(!check_placement(&six[..5].to_vec(), 1));
    assert!(check_placement(&Vec::new(), 0));
    let mut two: Vec<ShardLocation> = (0..6).map(|s| location(0, s)).collect();
    two.extend((2..8).map(|s| location(1, s)));
    assert!(manifest_of(2, two).is_recoverable());
}
