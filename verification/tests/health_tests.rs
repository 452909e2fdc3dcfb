use vishwarupa::health::{
    classify_probe, count_all_healthy, count_healthy, judge, status_name, FileStatus,
    ShardHealth, Verification,
};
use vishwarupa::manifest::{ChunkInfo, Manifest, ShardLocation};

fn placed(chunks: usize, shards_per_chunk: usize) -> Manifest {
    let mut shard_map = Vec::new();
    let mut infos = Vec::new();
    for chunk in 0..chunks {
        infos.push(ChunkInfo { chunk_index: chunk, encrypted_size: 100, nonce: vec![0u8; 12] });
        for shard in 0..shards_per_chunk {
            shard_map.push(ShardLocation {
                chunk_index: chunk,
                shard_index: shard,
                device_id: format!("device-{}", shard),
                device_address: format!("10.0.0.{}:9000", shard),
                shard_id: format!("shard-{}-{}", chunk, shard),
                nonce: vec![0u8; 12],
            });
        }
    }
    Manifest {
        file_id: "file-1".to_string(),
        original_name: "a.bin".to_string(),
        file_size: chunks * 50,
        chunk_count: chunks,
        encryption_key: vec![0u8; 32],
        shard_map,
        chunks: infos,
        sync_folder: None,
        tags: Vec::new(),
        created_at: 0,
        last_verified: None,
    }
}

fn verify_with(manifest: Manifest, healthy_per_chunk: usize) -> (usize, usize, FileStatus) {
    let mut verification = Verification::begin(manifest);
    while let Some(at) = verification.next_probe() {
        let index = verification.manifest.shard_map[at].shard_index;
        if index < healthy_per_chunk {
            verification.record(Some(b"PONG:OK\n"));
        } else if index % 2 == 0 {
            verification.record(Some(b"PONG:MISSING\n"));
        } else {
            verification.record(None);
        }
    }
    let report = verification.report();
    assert_eq!(report.file_id, "file-1");
    (report.healthy_shards, report.missing_shards, report.status)
}

#[test]
fn probe_answers_are_classified() {
    assert_eq!(classify_probe(Some(b"PONG:OK\n")), ShardHealth::Healthy);
    assert_eq!(classify_probe(Some(b"PONG:MISSING\n")), ShardHealth::Degraded);
    assert_eq!(classify_probe(None), ShardHealth::Unreachable);
    assert_eq!(classify_probe(Some(b"PONG:OK")), ShardHealth::Unreachable);
    assert_eq!(classify_probe(Some(b"ERR")), ShardHealth::Unreachable);
    assert_eq!(classify_probe(Some(b"")), ShardHealth::Unreachable);
    assert_eq!(classify_probe(Some(b"pong:ok\n")), ShardHealth::Unreachable);
}

#[test]
fn verify_classification_seven_five_ten_of_ten() {
    assert_eq!(verify_with(placed(3, 10), 7), (21, 9, FileStatus::Degraded));
    assert_eq!(verify_with(placed(3, 10), 5), (15, 15, FileStatus::Critical));
    assert_eq!(verify_with(placed(3, 10), 10), (30, 0, FileStatus::Healthy));
}

#[test]
fn six_healthy_shards_per_chunk_are_degraded_not_critical() {
    assert_eq!(verify_with(placed(2, 10), 6), (12, 8, FileStatus::Degraded));
    assert_eq!(verify_with(placed(1, 10), 9), (9, 1, FileStatus::Degraded));
    assert_eq!(verify_with(placed(1, 10), 0), (0, 10, FileStatus::Critical));
}

#[test]
fn one_starved_chunk_makes_the_file_critical() {
    let manifest = placed(3, 10);
    let mut health = vec![ShardHealth::Healthy; 30];
    for i in 10..15 {
        health[i] = ShardHealth::Unreachable;
    }
    assert_eq!(judge(&manifest.shard_map, &health, 3), FileStatus::Critical);
    assert_eq!(count_healthy(&manifest.shard_map, &health, 0), 10);
    assert_eq!(count_healthy(&manifest.shard_map, &health, 1), 5);
    assert_eq!(count_healthy(&manifest.shard_map, &health, 2), 10);
    assert_eq!(count_all_healthy(&health), 25);
    health[14] = ShardHealth::Healthy;
    assert_eq!(judge(&manifest.shard_map, &health, 3), FileStatus::Degraded);
}

#[test]
fn partly_placed_file_is_healthy_when_every_placed_shard_is() {
    assert_eq!(verify_with(placed(2, 6), 6), (12, 0, FileStatus::Healthy));
    assert_eq!(verify_with(placed(2, 6), 5), (10, 2, FileStatus::Critical));
}

#[test]
fn a_file_without_chunks_is_healthy() {
    assert_eq!(verify_with(placed(0, 0), 0), (0, 0, FileStatus::Healthy));
}

#[test]
fn probes_are_asked_in_the_order_of_the_shard_map() {
    let mut verification = Verification::begin(placed(1, 3));
    assert_eq!(verification.next_probe(), Some(0));
    verification.record(None);
    assert_eq!(verification.next_probe(), Some(1));
    verification.record(Some(b"PONG:OK\n"));
    assert_eq!(verification.next_probe(), Some(2));
    verification.record(Some(b"PONG:MISSING\n"));
    assert_eq!(verification.next_probe(), None);
    assert_eq!(
        verification.health,
        vec![ShardHealth::Unreachable, ShardHealth::Healthy, ShardHealth::Degraded]
    );
}

#[test]
fn statuses_have_their_names() {
    assert_eq!(status_name(FileStatus::Healthy), "HEALTHY");
    assert_eq!(status_name(FileStatus::Degraded), "DEGRADED");
    assert_eq!(status_name(FileStatus::Critical), "CRITICAL");
}
