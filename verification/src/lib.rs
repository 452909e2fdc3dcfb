//! Storage pipeline of a peer-to-peer file store.
//!
//! A file is cut into chunks; each chunk is compressed, sealed with an authenticated
//! cipher and spread over six data and four parity shards. The shards go to peers over a
//! small framed protocol, and a manifest records where each one went. Any six shards of a
//! chunk give the chunk back.
//!
//! Everything here works on plain values. Sockets, files and the key-value store belong
//! to the caller, who performs the actions that the pipeline hands out and feeds the
//! outcomes back in:
//!
//! - `upload::Upload` hands out the shards to send and takes the peers' answers;
//! - `download::Download` names the shards to fetch and takes what came back;
//! - `health::Verification` names the shards to probe and judges the file;
//! - `wire` builds and reads the frames and answers of the peer protocol;
//! - `store` and `keys` give the form in which manifests and the master key are kept;
//! - `node` and `peer` name a node's files and turn what discovery finds into peers.
//!
//! `chunk`, `erasure`, `crypto` and `codec` are the steps that a chunk goes through.

pub mod params;
pub mod error;
pub mod bytes;
pub mod text;
pub mod ids;
pub mod codec;
pub mod crypto;
pub mod erasure;
pub mod chunk;
pub mod manifest;
pub mod peer;
pub mod wire;
pub mod upload;
pub mod download;
pub mod health;
pub mod store;
pub mod keys;
pub mod node;
