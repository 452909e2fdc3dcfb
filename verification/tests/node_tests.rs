use vishwarupa::error::{ErrorKind, StoreError};
use vishwarupa::ids::fresh_id;
use vishwarupa::node::{
    cli_id, data_dir, db_dir, device_from_service, device_id, device_id_file_name, host_name,
    instance_name, key_file_name, listen_address, needs_coordinator, needs_directory,
    parse_listen_port, parse_port, service_type, shard_meta_path, shard_path, shards_dir,
    short_id,
};
use vishwarupa::peer::{
    device_from_directory, endpoint, placement_target, split_endpoint, Device,
};
use vishwarupa::text::{decimal_text, space_in, trim_ascii, trim_in};

#[test]
fn the_port_defaults_to_nine_thousand() {
    assert_eq!(parse_listen_port(None), Ok(9000));
}

#[test]
fn a_configured_port_is_read() {
    assert_eq!(parse_listen_port(Some(b"9001")), Ok(9001));
    assert_eq!(parse_listen_port(Some(b"0")), Ok(0));
    assert_eq!(parse_listen_port(Some(b"65535")), Ok(65535));
    assert_eq!(parse_listen_port(Some(b"+80")), Ok(80));
    assert_eq!(parse_listen_port(Some(b"00080")), Ok(80));
}

#[test]
fn an_unparseable_port_is_an_error() {
    for text in ["", "+", "65536", "99999999999999999999", "80a", " 80", "80 ", "-1", "++1", "8 0", "0x50"] {
        assert_eq!(
            parse_listen_port(Some(text.as_bytes())),
            Err(StoreError::UnparseablePort),
            "{:?}",
            text
        );
        assert_eq!(parse_port(text.as_bytes()), text.parse::<u16>().ok());
    }
    assert_eq!(StoreError::UnparseablePort.kind(), ErrorKind::Configuration);
}

#[test]
fn every_port_reads_back_from_its_digits() {
    for port in [0u16, 1, 9, 10, 99, 100, 9000, 9999, 10000, 65534, 65535] {
        assert_eq!(parse_port(decimal_text(port as u64).as_bytes()), Some(port));
    }
}

#[test]
fn numbers_are_written_in_decimal() {
    assert_eq!(decimal_text(0), "0");
    assert_eq!(decimal_text(7), "7");
    assert_eq!(decimal_text(10), "10");
    assert_eq!(decimal_text(9000), "9000");
    assert_eq!(decimal_text(1234567890), "1234567890");
    assert_eq!(decimal_text(u64::MAX), "18446744073709551615");
}

#[test]
fn state_files_are_named_by_port() {
    assert_eq!(key_file_name(9000), "master_9000.key");
    assert_eq!(device_id_file_name(9000), "device_id_9000.txt");
    assert_eq!(key_file_name(0), "master_0.key");
    assert_eq!(device_id_file_name(65535), "device_id_65535.txt");
    assert_eq!(cli_id(9001), "cli_9001");
    assert_eq!(listen_address(9000), "0.0.0.0:9000");
}

#[test]
fn nodes_on_different_ports_keep_their_state_apart() {
    let ports = [0u16, 1, 10, 11, 100, 101, 110, 9000, 9001, 90, 900, 65535];
    for a in ports {
        for b in ports {
            if a != b {
                assert_ne!(key_file_name(a), key_file_name(b));
                assert_ne!(device_id_file_name(a), device_id_file_name(b));
            }
        }
    }
}

#[test]
fn data_directories_are_named_by_the_short_identifier() {
    let id = "3f2b8c1e-aaaa-4bbb-8ccc-0123456789ab";
    assert_eq!(short_id(id), "3f2b8c1e");
    assert_eq!(short_id("12345678"), "12345678");
    assert_eq!(short_id("1234567"), "1234567");
    assert_eq!(short_id(""), "");
    assert_eq!(short_id("cli_9000"), "cli_9000");
    assert_eq!(short_id("cli_65535"), "cli_6553");
    assert_eq!(data_dir(id), "data_3f2b8c1e");
    assert_eq!(db_dir(id), "data_3f2b8c1e/db");
    assert_eq!(shards_dir(id), "data_3f2b8c1e/shards");
    assert_eq!(shard_path("data_3f2b8c1e/shards", "abc"), "data_3f2b8c1e/shards/abc");
    assert_eq!(shard_meta_path("data_3f2b8c1e/shards", "abc"), "data_3f2b8c1e/shards/abc.meta");
}

#[test]
fn a_stored_device_identifier_is_kept() {
    let (id, fresh) = device_id(Some(b"3f2b8c1e-aaaa-4bbb-8ccc-0123456789ab\n"));
    assert_eq!(id, "3f2b8c1e-aaaa-4bbb-8ccc-0123456789ab");
    assert!(!fresh);
    assert_eq!(device_id(Some(b"  my-node \t")), ("my-node".to_string(), false));
    assert_eq!(device_id(Some(b"")), (String::new(), false));
}

#[test]
fn a_missing_device_identifier_is_minted() {
    let (id, fresh) = device_id(None);
    assert!(fresh);
    assert_eq!(id.len(), 36);
    assert_eq!(id.as_bytes()[8], b'-');
    let (other, _) = device_id(None);
    assert_ne!(id, other);
    let (replaced, fresh) = device_id(Some(&[0xff, 0xfe]));
    assert!(fresh);
    assert_eq!(replaced.len(), 36);
}

#[test]
fn fresh_identifiers_are_hyphenated_and_differ() {
    let id = fresh_id();
    assert_eq!(id.len(), 36);
    for (i, c) in id.chars().enumerate() {
        if i == 8 || i == 13 || i == 18 || i == 23 {
            assert_eq!(c, '-');
        } else {
            assert!(c.is_ascii_digit() || ('a'..='f').contains(&c));
        }
    }
    assert_ne!(fresh_id(), id);
}

#[test]
fn services_are_named_after_the_node() {
    let id = "3f2b8c1e-aaaa-4bbb-8ccc-0123456789ab";
    assert_eq!(service_type(), "_vishwarupa._tcp.local.");
    assert_eq!(instance_name(id), "vishwarupa-3f2b8c1e");
    assert_eq!(host_name(id), "vishwarupa-3f2b8c1e.local.");
    assert_eq!(instance_name("abc"), "vishwarupa-abc");
}

#[test]
fn a_resolved_service_with_identifier_and_address_is_a_peer() {
    let device = device_from_service(
        Some("dev-1".to_string()),
        vec!["192.168.1.5".to_string(), "10.0.0.5".to_string()],
        9003,
    )
    .unwrap();
    assert_eq!(device.device_id, "dev-1");
    assert_eq!(device.device_type, "agent");
    assert_eq!(device.address, "192.168.1.5");
    assert_eq!(device.port, 9003);
    assert_eq!(device.endpoint(), "192.168.1.5:9003");
    assert!(device_from_service(None, vec!["192.168.1.5".to_string()], 9003).is_none());
    assert!(device_from_service(Some("dev-1".to_string()), Vec::new(), 9003).is_none());
}

#[test]
fn the_directory_is_asked_only_when_no_peer_was_found() {
    assert!(needs_directory(0));
    assert!(!needs_directory(1));
    assert!(!needs_directory(10));
}

#[test]
fn endpoints_are_host_colon_port() {
    assert_eq!(endpoint("127.0.0.1", 8000), "127.0.0.1:8000");
    assert_eq!(endpoint("", 0), ":0");
    assert_eq!(endpoint("::1", 65535), "::1:65535");
    let device = Device {
        device_id: "d".to_string(),
        device_type: "agent".to_string(),
        address: "host.local".to_string(),
        port: 9000,
    };
    assert_eq!(device.endpoint(), "host.local:9000");
}

#[test]
fn shards_go_round_the_peers() {
    let targets: Vec<usize> = (0..10).map(|i| placement_target(i, 4)).collect();
    assert_eq!(targets, vec![0, 1, 2, 3, 0, 1, 2, 3, 0, 1]);
    let targets: Vec<usize> = (0..10).map(|i| placement_target(i, 10)).collect();
    assert_eq!(targets, vec![0, 1, 2, 3, 4, 5, 6, 7, 8, 9]);
    assert_eq!(placement_target(9, 1), 0);
    assert_eq!(placement_target(3, 25), 3);
}

#[test]
fn errors_fall_into_their_kinds() {
    let kinds = [
        (StoreError::InvalidKeyFile, ErrorKind::Configuration),
        (StoreError::EmptyPassword, ErrorKind::Configuration),
        (StoreError::KeyDerivation, ErrorKind::Configuration),
        (StoreError::CorruptCiphertext, ErrorKind::Crypto),
        (StoreError::CorruptManifest, ErrorKind::Crypto),
        (StoreError::InvalidKey, ErrorKind::Crypto),
        (StoreError::PayloadTooLarge, ErrorKind::Codec),
        (StoreError::DecompressOverflow, ErrorKind::Codec),
        (StoreError::InsufficientShards, ErrorKind::Erasure),
        (StoreError::ShardLengthMismatch, ErrorKind::Erasure),
        (StoreError::ConnectTimeout, ErrorKind::Network),
        (StoreError::WriteTimeout, ErrorKind::Network),
        (StoreError::ReadTimeout, ErrorKind::Network),
        (StoreError::RemoteError, ErrorKind::Network),
        (StoreError::Unreachable, ErrorKind::Network),
        (StoreError::ManifestNotFound, ErrorKind::Storage),
        (StoreError::ShardNotFound, ErrorKind::Storage),
        (StoreError::NoPeers, ErrorKind::Placement),
        (StoreError::InsufficientPlacement, ErrorKind::Placement),
    ];
    for (error, kind) in kinds {
        assert_eq!(error.kind(), kind);
        assert_eq!(error.recoverable(), kind == ErrorKind::Network);
    }
}

#[test]
fn an_address_is_split_at_its_last_colon() {
    assert_eq!(split_endpoint("10.0.0.5:9001"), Some(("10.0.0.5".to_string(), 9001)));
    assert_eq!(split_endpoint("host.local:80"), Some(("host.local".to_string(), 80)));
    assert_eq!(split_endpoint("[::1]:9000"), Some(("[::1]".to_string(), 9000)));
    assert_eq!(split_endpoint("a:b:7"), Some(("a:b".to_string(), 7)));
    assert_eq!(split_endpoint(":80"), Some((String::new(), 80)));
    assert_eq!(split_endpoint("h\u{e9}te:80"), Some(("h\u{e9}te".to_string(), 80)));
    assert_eq!(split_endpoint("host"), None);
    assert_eq!(split_endpoint("host:"), None);
    assert_eq!(split_endpoint("host:http"), None);
    assert_eq!(split_endpoint("host:65536"), None);
    assert_eq!(split_endpoint(""), None);
    assert_eq!(split_endpoint(&endpoint("192.168.0.9", 9100)), Some(("192.168.0.9".to_string(), 9100)));
}

#[test]
fn an_online_entry_of_the_directory_is_a_peer() {
    let device = device_from_directory("dev-7".to_string(), "10.1.2.3:9007", true).unwrap();
    assert_eq!(device.device_id, "dev-7");
    assert_eq!(device.device_type, "agent");
    assert_eq!(device.address, "10.1.2.3");
    assert_eq!(device.port, 9007);
    assert!(device_from_directory("dev-7".to_string(), "10.1.2.3:9007", false).is_none());
    assert!(device_from_directory("dev-7".to_string(), "10.1.2.3", true).is_none());
}

#[test]
fn the_coordinator_is_asked_only_for_a_missing_manifest() {
    assert!(needs_coordinator(StoreError::ManifestNotFound));
    for error in [
        StoreError::CorruptManifest,
        StoreError::InvalidKey,
        StoreError::DecompressOverflow,
        StoreError::ShardNotFound,
        StoreError::Unreachable,
    ] {
        assert!(!needs_coordinator(error));
    }
}

#[test]
fn text_files_are_trimmed_of_ascii_space_only() {
    assert_eq!(trim_ascii(b" \t\r\nabc def\n "), b"abc def".to_vec());
    assert_eq!(trim_ascii(b"abc"), b"abc".to_vec());
    assert_eq!(trim_ascii(b" \n"), Vec::<u8>::new());
    assert_eq!(trim_ascii(&[0xA0, b'x', 0x85]), vec![0xA0, b'x', 0x85]);
    assert_eq!(trim_in(&[0xA0, b'x', 0x85], true), b"x".to_vec());
    assert_eq!(trim_in(&[0xA0, b'x', 0x85], false), vec![0xA0, b'x', 0x85]);
    assert!(space_in(b' ', false) && space_in(b' ', true));
    assert!(!space_in(0xA0, false) && space_in(0xA0, true));
    assert!(!space_in(0x85, false) && space_in(0x85, true));
    assert!(!space_in(b'a', true));
}

#[test]
fn a_stored_device_identifier_keeps_bytes_that_are_no_ascii_space() {
    assert_eq!(device_id(Some("id\u{a0}\n".as_bytes())), ("id\u{a0}".to_string(), false));
}
