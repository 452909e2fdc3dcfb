use std::collections::HashMap;

use rand::RngCore;
use vishwarupa::download::{Action, Download};
use vishwarupa::error::StoreError;
use vishwarupa::manifest::Manifest;
use vishwarupa::peer::Device;
use vishwarupa::upload::{chunk_bounds, count_chunks, StoreRequest, Upload};
use vishwarupa::wire::{
    encode_get, encode_store, get_reply, malformed_reply, parse_frame, ping_reply,
    read_get_reply, read_store_reply, store_reply, Request, Response,
};

struct MemoryPeer {
    shards: HashMap<Vec<u8>, Vec<u8>>,
    up: bool,
}

fn peers_up(count: usize) -> Vec<MemoryPeer> {
    (0..count).map(|_| MemoryPeer { shards: HashMap::new(), up: true }).collect()
}

fn devices_for(count: usize) -> Vec<Device> {
    (0..count)
        .map(|i| Device {
            device_id: format!("device-{}", i),
            device_type: "agent".to_string(),
            address: format!("10.0.0.{}", i + 1),
            port: 9000 + i as u16,
        })
        .collect()
}

fn peer_at(address: &str) -> usize {
    let host = address.split(':').next().unwrap();
    host.rsplit('.').next().unwrap().parse::<usize>().unwrap() - 1
}

fn serve(peer: &mut MemoryPeer, frame: &[u8]) -> Option<Vec<u8>> {
    if !peer.up {
        return None;
    }
    let reply = match parse_frame(frame) {
        None => malformed_reply(),
        Some(Request::Store { metadata, payload }) => {
            let valid = serde_json::from_slice::<serde_json::Value>(&metadata).is_ok();
            let reply = store_reply(valid);
            if let Response::ShardId(id) = &reply {
                peer.shards.insert(id.as_bytes().to_vec(), payload);
            }
            reply
        }
        Some(Request::Get { shard_id }) => get_reply(peer.shards.get(&shard_id).cloned()),
        Some(Request::Ping { shard_id }) => ping_reply(peer.shards.contains_key(&shard_id)),
    };
    Some(reply.to_bytes())
}

fn metadata_json(request: &StoreRequest) -> Vec<u8> {
    format!(
        "{{\"file_id\":\"{}\",\"chunk_index\":{},\"shard_index\":{},\"nonce\":{:?}}}",
        request.metadata.file_id,
        request.metadata.chunk_index,
        request.metadata.shard_index,
        request.metadata.nonce
    )
    .into_bytes()
}

fn run_upload(file: &[u8], peers: &mut Vec<MemoryPeer>) -> Result<Manifest, StoreError> {
    let mut upload = Upload::start(file.to_vec(), devices_for(peers.len()))?;
    while let Some(request) = upload.next_request() {
        assert_eq!(request.peer, request.metadata.shard_index % peers.len());
        assert_eq!(peer_at(&request.address), request.peer);
        let frame = encode_store(&metadata_json(&request), &request.shard).unwrap();
        let reply = serve(&mut peers[request.peer], &frame);
        upload.record(reply.and_then(|bytes| read_store_reply(bytes).ok()));
    }
    assert!(upload.is_complete());
    upload.finish("report.pdf".to_string(), None, vec!["work".to_string()], 1_700_000_000)
}

fn run_download(manifest: Manifest, peers: &mut Vec<MemoryPeer>) -> Result<Vec<u8>, StoreError> {
    assert!(manifest.is_valid());
    let mut download = Download::begin(manifest);
    loop {
        match download.next_action() {
            Action::Fetch(at) => {
                let location = &download.manifest.shard_map[at];
                let frame = encode_get(&location.shard_id);
                let reply = serve(&mut peers[peer_at(&location.device_address)], &frame);
                download.record_fetch(reply.and_then(|bytes| read_get_reply(bytes).ok()));
            }
            Action::Done => return Ok(download.into_file()),
            Action::Failed(e) => return Err(e),
        }
    }
}

fn random_file(len: usize) -> Vec<u8> {
    let mut file = vec![0u8; len];
    rand::thread_rng().fill_bytes(&mut file);
    file
}

#[test]
fn chunk_counts_and_bounds() {
    assert_eq!(count_chunks(0), 0);
    assert_eq!(count_chunks(1), 1);
    assert_eq!(count_chunks(4194304), 1);
    assert_eq!(count_chunks(4194305), 2);
    assert_eq!(count_chunks(10 * 1024 * 1024), 3);
    assert_eq!(chunk_bounds(10 * 1024 * 1024, 0), (0, 4194304));
    assert_eq!(chunk_bounds(10 * 1024 * 1024, 1), (4194304, 8388608));
    assert_eq!(chunk_bounds(10 * 1024 * 1024, 2), (8388608, 10485760));
    assert_eq!(chunk_bounds(5, 0), (0, 5));
}

#[test]
fn happy_path_ten_mebibytes_over_ten_peers() {
    let file = random_file(10 * 1024 * 1024);
    let mut peers = peers_up(10);
    let manifest = run_upload(&file, &mut peers).unwrap();
    assert_eq!(manifest.chunk_count, 3);
    assert_eq!(manifest.chunks.len(), 3);
    assert_eq!(manifest.shard_map.len(), 30);
    assert_eq!(manifest.file_size, file.len());
    assert_eq!(manifest.original_name, "report.pdf");
    assert_eq!(manifest.tags, vec!["work".to_string()]);
    assert_eq!(manifest.created_at, 1_700_000_000);
    assert_eq!(manifest.last_verified, None);
    assert_eq!(manifest.encryption_key.len(), 32);
    assert_eq!(manifest.file_id.len(), 36);
    assert!(vishwarupa::wire::names_shard(manifest.file_id.as_bytes()));
    for (i, location) in manifest.shard_map.iter().enumerate() {
        assert_eq!(location.chunk_index, i / 10);
        assert_eq!(location.shard_index, i % 10);
        assert_eq!(location.device_id, format!("device-{}", i % 10));
        assert_eq!(location.device_address, format!("10.0.0.{}:{}", i % 10 + 1, 9000 + i % 10));
        assert_eq!(location.shard_id.len(), 36);
        assert_eq!(location.nonce, manifest.chunks[i / 10].nonce);
    }
    for peer in &peers {
        assert_eq!(peer.shards.len(), 3);
    }
    assert!(manifest.is_valid());
    assert!(manifest.is_recoverable());
    assert_eq!(run_download(manifest, &mut peers), Ok(file));
}

#[test]
fn partial_failure_four_peers_refuse_during_upload() {
    let file = random_file(10 * 1024 * 1024);
    let mut peers = peers_up(10);
    for i in [1, 4, 6, 9] {
        peers[i].up = false;
    }
    let manifest = run_upload(&file, &mut peers).unwrap();
    assert_eq!(manifest.shard_map.len(), 18);
    for chunk in 0..3 {
        let placed: Vec<usize> = manifest
            .shard_map
            .iter()
            .filter(|s| s.chunk_index == chunk)
            .map(|s| s.shard_index)
            .collect();
        assert_eq!(placed, vec![0, 2, 3, 5, 7, 8]);
    }
    assert_eq!(run_download(manifest, &mut peers), Ok(file));
}

#[test]
fn below_threshold_five_peers_refuse_during_upload() {
    let file = random_file(5 * 1024 * 1024);
    let mut peers = peers_up(10);
    for i in [0, 2, 4, 6, 8] {
        peers[i].up = false;
    }
    assert_eq!(run_upload(&file, &mut peers).err(), Some(StoreError::InsufficientPlacement));
}

#[test]
fn one_chunk_below_threshold_fails_the_upload() {
    let file = random_file(4194304 + 10);
    let mut upload = Upload::start(file, devices_for(10)).unwrap();
    let mut sent = 0;
    while let Some(request) = upload.next_request() {
        let refuse = request.metadata.chunk_index == 1 && request.metadata.shard_index >= 5;
        upload.record(if refuse { None } else { Some(format!("shard-{}", sent)) });
        sent += 1;
    }
    assert_eq!(sent, 20);
    assert_eq!(upload.shard_map.len(), 15);
    assert_eq!(
        upload.finish("f".to_string(), None, Vec::new(), 0).err(),
        Some(StoreError::InsufficientPlacement)
    );
}

#[test]
fn download_resilience_four_peers_down() {
    let file = random_file(10 * 1024 * 1024);
    let mut peers = peers_up(10);
    let manifest = run_upload(&file, &mut peers).unwrap();
    for down in [[0, 1, 2, 3], [0, 2, 4, 5], [6, 7, 8, 9], [1, 3, 5, 8]] {
        for peer in peers.iter_mut() {
            peer.up = true;
        }
        for i in down {
            peers[i].up = false;
        }
        assert_eq!(run_download(manifest.clone(), &mut peers), Ok(file.clone()));
    }
}

#[test]
fn download_fails_with_five_peers_down() {
    let file = random_file(1000);
    let mut peers = peers_up(10);
    let manifest = run_upload(&file, &mut peers).unwrap();
    for i in [0, 1, 2, 3, 4] {
        peers[i].up = false;
    }
    assert_eq!(run_download(manifest, &mut peers), Err(StoreError::InsufficientShards));
}

#[test]
fn download_skips_shards_that_a_peer_lost() {
    let file = random_file(70_000);
    let mut peers = peers_up(10);
    let manifest = run_upload(&file, &mut peers).unwrap();
    for i in [0, 3, 5] {
        peers[i].shards.clear();
    }
    assert_eq!(run_download(manifest, &mut peers), Ok(file));
}

#[test]
fn tamper_detection_one_byte_of_one_shard() {
    let file = random_file(10 * 1024 * 1024);
    let mut peers = peers_up(10);
    let manifest = run_upload(&file, &mut peers).unwrap();
    let target = &manifest.shard_map[12];
    assert_eq!((target.chunk_index, target.shard_index), (1, 2));
    let shard = peers[2].shards.get_mut(target.shard_id.as_bytes()).unwrap();
    shard[100] ^= 0x01;
    assert_eq!(run_download(manifest, &mut peers), Err(StoreError::CorruptCiphertext));
}

#[test]
fn fewer_peers_than_shards_go_round() {
    let file = random_file(3000);
    let mut peers = peers_up(3);
    let manifest = run_upload(&file, &mut peers).unwrap();
    assert_eq!(manifest.shard_map.len(), 10);
    assert_eq!(peers[0].shards.len(), 4);
    assert_eq!(peers[1].shards.len(), 3);
    assert_eq!(peers[2].shards.len(), 3);
    for location in &manifest.shard_map {
        assert_eq!(location.device_id, format!("device-{}", location.shard_index % 3));
    }
    assert_eq!(run_download(manifest, &mut peers), Ok(file));
}

#[test]
fn round_trip_of_small_and_odd_sizes() {
    for len in [1usize, 2, 15, 16, 17, 4095, 65_537] {
        let file = random_file(len);
        let mut peers = peers_up(6);
        let manifest = run_upload(&file, &mut peers).unwrap();
        assert_eq!(manifest.chunk_count, 1);
        assert_eq!(run_download(manifest, &mut peers), Ok(file));
    }
}

#[test]
fn round_trip_of_compressible_data() {
    let file = vec![b'a'; 4194304 + 17];
    let mut peers = peers_up(10);
    let manifest = run_upload(&file, &mut peers).unwrap();
    assert_eq!(manifest.chunk_count, 2);
    assert!(manifest.chunks[0].encrypted_size < 100_000);
    assert_eq!(run_download(manifest, &mut peers), Ok(file));
}

#[test]
fn empty_file_has_an_empty_manifest() {
    let mut peers = peers_up(10);
    let manifest = run_upload(&[], &mut peers).unwrap();
    assert_eq!(manifest.chunk_count, 0);
    assert!(manifest.shard_map.is_empty());
    assert!(manifest.chunks.is_empty());
    assert_eq!(run_download(manifest, &mut peers), Ok(Vec::new()));
}

#[test]
fn upload_without_peers_fails() {
    assert_eq!(Upload::start(vec![1, 2, 3], Vec::new()).err(), Some(StoreError::NoPeers));
    assert_eq!(
        Upload::start_with(vec![1], "id".to_string(), vec![0u8; 32], Vec::new()).err(),
        Some(StoreError::NoPeers)
    );
}

#[test]
fn upload_with_a_short_key_fails() {
    assert_eq!(
        Upload::start_with(vec![1], "id".to_string(), vec![0u8; 31], devices_for(1)).err(),
        Some(StoreError::InvalidKey)
    );
}

#[test]
fn a_waiting_request_is_handed_out_again() {
    let mut upload =
        Upload::start_with(vec![7u8; 100], "file".to_string(), vec![1u8; 32], devices_for(4))
            .unwrap();
    assert!(!upload.is_complete());
    let first = upload.next_request().unwrap();
    let again = upload.next_request().unwrap();
    assert_eq!(first.shard, again.shard);
    assert_eq!(first.metadata.shard_index, 0);
    assert_eq!(again.metadata.shard_index, 0);
    assert_eq!(first.metadata.file_id, "file");
    assert_eq!(first.metadata.nonce, upload.chunks[0].nonce);
    upload.record(Some("a".to_string()));
    let second = upload.next_request().unwrap();
    assert_eq!(second.metadata.shard_index, 1);
    assert_eq!(second.peer, 1);
    assert_eq!(second.address, "10.0.0.2:9001");
}

#[test]
fn download_stops_fetching_after_six_shards() {
    let file = random_file(500);
    let mut peers = peers_up(10);
    let manifest = run_upload(&file, &mut peers).unwrap();
    let mut download = Download::begin(manifest);
    let mut asked = Vec::new();
    loop {
        match download.next_action() {
            Action::Fetch(at) => {
                asked.push(at);
                let location = &download.manifest.shard_map[at];
                let shard = peers[peer_at(&location.device_address)]
                    .shards
                    .get(location.shard_id.as_bytes())
                    .cloned();
                download.record_fetch(if at == 1 || at == 4 { None } else { shard });
            }
            Action::Done => break,
            Action::Failed(e) => panic!("download failed: {:?}", e),
        }
    }
    assert_eq!(asked, vec![0, 1, 2, 3, 4, 5, 6, 7]);
    assert_eq!(download.into_file(), file);
}

#[test]
fn download_cuts_the_output_to_the_recorded_size() {
    let file = random_file(300);
    let mut peers = peers_up(10);
    let mut manifest = run_upload(&file, &mut peers).unwrap();
    manifest.file_size = 120;
    assert_eq!(run_download(manifest, &mut peers), Ok(file[..120].to_vec()));
}

#[test]
fn download_refuses_ragged_shards() {
    let file = random_file(300);
    let mut peers = peers_up(10);
    let manifest = run_upload(&file, &mut peers).unwrap();
    let id = manifest.shard_map[3].shard_id.as_bytes().to_vec();
    peers[3].shards.get_mut(&id).unwrap().push(0);
    assert_eq!(run_download(manifest, &mut peers), Err(StoreError::ShardLengthMismatch));
}
