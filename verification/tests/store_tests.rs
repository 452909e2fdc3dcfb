use vishwarupa::error::StoreError;
use vishwarupa::store::{
    file_id_of_key, frame_blob, list_file_ids, manifest_key, manifest_prefix, open_manifest,
    open_stored, seal_manifest, seal_manifest_with_nonce, split_blob,
};

fn contains(haystack: &[u8], needle: &[u8]) -> bool {
    haystack.windows(needle.len()).any(|window| window == needle)
}

#[test]
fn manifests_are_kept_under_their_prefix() {
    assert_eq!(manifest_prefix(), b"manifest:".to_vec());
    assert_eq!(manifest_key("abc-123"), b"manifest:abc-123".to_vec());
    assert_eq!(manifest_key(""), b"manifest:".to_vec());
    assert_eq!(manifest_key("\u{e9}"), b"manifest:\xc3\xa9".to_vec());
}

#[test]
fn a_key_names_its_file() {
    assert_eq!(file_id_of_key(b"manifest:abc-123"), Some("abc-123".to_string()));
    assert_eq!(file_id_of_key(b"manifest:"), Some(String::new()));
    assert_eq!(file_id_of_key(&manifest_key("x:y")), Some("x:y".to_string()));
    assert_eq!(file_id_of_key(b"manifest"), None);
    assert_eq!(file_id_of_key(b"Manifest:abc"), None);
    assert_eq!(file_id_of_key(b"shard:abc"), None);
    assert_eq!(file_id_of_key(b""), None);
    assert_eq!(file_id_of_key(b"manifest:\xff"), None);
}

#[test]
fn listing_keeps_the_order_of_the_scan() {
    let keys = vec![
        b"manifest:a".to_vec(),
        b"manifest:\xff\xfe".to_vec(),
        b"manifest:b".to_vec(),
        b"other".to_vec(),
        b"manifest:c".to_vec(),
    ];
    assert_eq!(list_file_ids(&keys), vec!["a".to_string(), "b".to_string(), "c".to_string()]);
    assert_eq!(list_file_ids(&Vec::new()), Vec::<String>::new());
}

#[test]
fn a_kept_manifest_is_nonce_then_sealed_bytes() {
    let key = [3u8; 32];
    let nonce = [5u8; 12];
    let json = b"{\"file_id\":\"abc\",\"original_name\":\"holiday.jpg\"}";
    let blob = seal_manifest_with_nonce(json, &key, &nonce).unwrap();
    assert_eq!(blob[..12].to_vec(), nonce.to_vec());
    let packed = vishwarupa::codec::compress(json).unwrap();
    assert_eq!(blob.len(), 12 + packed.len() + 16);
    assert_eq!(blob[12..].to_vec(), vishwarupa::crypto::seal(&packed, &key, &nonce).unwrap());
    assert_eq!(open_manifest(&blob, &key), Ok(json.to_vec()));
}

#[test]
fn sealing_draws_a_fresh_nonce() {
    let key = [3u8; 32];
    let json = b"{\"file_id\":\"abc\"}";
    let one = seal_manifest(json, &key).unwrap();
    let two = seal_manifest(json, &key).unwrap();
    assert_ne!(one[..12], two[..12]);
    assert_eq!(open_manifest(&one, &key), Ok(json.to_vec()));
    assert_eq!(open_manifest(&two, &key), Ok(json.to_vec()));
    assert_eq!(seal_manifest_with_nonce(json, &key, &one[..12]), Ok(one));
}

#[test]
fn the_kept_form_hides_names_and_nonces() {
    let key = [8u8; 32];
    let nonce_text = "[17,34,51,68,85,102,119,136,153,170,187,204]";
    let json = format!(
        "{{\"file_id\":\"f\",\"original_name\":\"tax-return-2023.pdf\",\"chunks\":[{{\"nonce\":{}}}]}}",
        nonce_text
    );
    let blob = seal_manifest(json.as_bytes(), &key).unwrap();
    assert!(!contains(&blob, b"tax-return-2023.pdf"));
    assert!(!contains(&blob, nonce_text.as_bytes()));
    assert!(!contains(&blob, &[17, 34, 51, 68, 85, 102, 119, 136, 153, 170, 187, 204]));
    assert!(!contains(&blob, b"original_name"));
}

#[test]
fn a_damaged_or_short_blob_is_a_corrupt_manifest() {
    let key = [3u8; 32];
    let blob = seal_manifest(b"{\"file_id\":\"abc\"}", &key).unwrap();
    for i in [0usize, 11, 12, blob.len() - 1] {
        let mut damaged = blob.clone();
        damaged[i] ^= 0x80;
        assert_eq!(open_manifest(&damaged, &key), Err(StoreError::CorruptManifest));
    }
    assert_eq!(open_manifest(&blob[..11], &key), Err(StoreError::CorruptManifest));
    assert_eq!(open_manifest(&blob[..20], &key), Err(StoreError::CorruptManifest));
    assert_eq!(open_manifest(&[], &key), Err(StoreError::CorruptManifest));
    assert_eq!(open_manifest(&blob, &[4u8; 32]), Err(StoreError::CorruptManifest));
}

#[test]
fn a_key_of_wrong_length_is_invalid() {
    let blob = seal_manifest(b"{}", &[3u8; 32]).unwrap();
    assert_eq!(open_manifest(&blob, &[3u8; 31]), Err(StoreError::InvalidKey));
    assert_eq!(seal_manifest(b"{}", &[3u8; 33]), Err(StoreError::InvalidKey));
    assert_eq!(
        seal_manifest_with_nonce(b"{}", &[3u8; 32], &[0u8; 11]),
        Err(StoreError::InvalidKey)
    );
}

#[test]
fn a_manifest_that_inflates_beyond_the_limit_is_refused() {
    let key = [3u8; 32];
    let big = vec![b' '; 10 * 1024 * 1024 + 1];
    let blob = seal_manifest(&big, &key).unwrap();
    assert_eq!(open_manifest(&blob, &key), Err(StoreError::DecompressOverflow));
    let fits = vec![b' '; 10 * 1024 * 1024];
    let blob = seal_manifest(&fits, &key).unwrap();
    assert_eq!(open_manifest(&blob, &key), Ok(fits));
}

#[test]
fn a_missing_key_is_a_missing_manifest() {
    let key = [3u8; 32];
    assert_eq!(open_stored(None, &key), Err(StoreError::ManifestNotFound));
    let blob = seal_manifest(b"{\"a\":1}", &key).unwrap();
    assert_eq!(open_stored(Some(blob), &key), Ok(b"{\"a\":1}".to_vec()));
    assert_eq!(open_stored(Some(vec![1, 2, 3]), &key), Err(StoreError::CorruptManifest));
}

#[test]
fn an_empty_manifest_round_trips() {
    let key = [3u8; 32];
    let blob = seal_manifest_with_nonce(b"", &key, &[1u8; 12]).unwrap();
    assert_eq!(blob.len(), 12 + 16);
    assert_eq!(open_manifest(&blob, &key), Ok(Vec::new()));
}

#[test]
fn a_blob_is_put_together_and_taken_apart() {
    let blob = frame_blob(&[1u8; 12], &[2, 3, 4]);
    assert_eq!(blob.len(), 15);
    assert_eq!(split_blob(&blob), Some((&[1u8; 12][..], &[2u8, 3, 4][..])));
    assert_eq!(split_blob(&blob[..12]), Some((&[1u8; 12][..], &[][..])));
    assert_eq!(split_blob(&blob[..11]), None);
    assert_eq!(split_blob(&[]), None);
}

#[test]
fn a_blob_too_short_for_nonce_and_tag_is_corrupt() {
    let key = [3u8; 32];
    for len in 0..28 {
        assert_eq!(open_manifest(&vec![0u8; len], &key), Err(StoreError::CorruptManifest));
        assert_eq!(open_stored(Some(vec![7u8; len]), &key), Err(StoreError::CorruptManifest));
    }
    assert_eq!(open_manifest(&[0u8; 20], &[3u8; 31]), Err(StoreError::InvalidKey));
    assert_eq!(open_manifest(&[0u8; 11], &[3u8; 31]), Err(StoreError::CorruptManifest));
}
