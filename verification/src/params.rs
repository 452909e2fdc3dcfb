//! Fixed parameters of the storage pipeline.

use vstd::prelude::*;

verus! {

/// Size of a plaintext chunk in bytes (4 MiB); only the last chunk of a file may be shorter.
pub const CHUNK_SIZE: usize = 4194304;

/// Number of data shards per chunk.
pub const DATA_SHARDS: usize = 6;

/// Number of parity shards per chunk.
pub const PARITY_SHARDS: usize = 4;

/// Number of shards per chunk, data and parity together.
pub const TOTAL_SHARDS: usize = 10;

/// Length of a symmetric key in bytes.
pub const KEY_LEN: usize = 32;

/// Length of a cipher nonce in bytes.
pub const NONCE_LEN: usize = 12;

/// Length of the authentication tag that the cipher appends to a ciphertext.
pub const TAG_LEN: usize = 16;

/// Length of a file, shard or device identifier as text.
pub const ID_LEN: usize = 36;

/// Largest size to which a compressed payload may inflate (10 MiB).
pub const MAX_INFLATED: usize = 10485760;

/// Seconds within which a connection to a peer must be made.
pub const CONNECT_TIMEOUT_SECS: u64 = 3;

/// Seconds within which a request must be written to a peer.
pub const WRITE_TIMEOUT_SECS: u64 = 5;

/// Seconds within which a peer must answer.
pub const READ_TIMEOUT_SECS: u64 = 5;

/// Seconds within which a health probe must connect, and within which it must be answered.
pub const PROBE_TIMEOUT_SECS: u64 = 2;

/// Seconds for which the local network is browsed for peers.
pub const BROWSE_WINDOW_SECS: u64 = 3;

/// Seconds within which the coordinator's directory of devices must answer.
pub const DIRECTORY_TIMEOUT_SECS: u64 = 5;

} // verus!
