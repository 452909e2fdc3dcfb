//! The errors of the storage pipeline, and the kind each belongs to.

use vstd::prelude::*;

verus! {

/// What can go wrong in the pipeline.
#[derive(Clone, Copy, Debug, PartialEq, Eq, Structural)]
pub enum StoreError {
    /// The master-key file does not hold 32 hex-encoded bytes.
    InvalidKeyFile,
    /// The operator gave an empty password.
    EmptyPassword,
    /// The listen port is set but is not a decimal number below 65536.
    UnparseablePort,
    /// The password hash could not be turned into a key.
    KeyDerivation,
    /// A chunk ciphertext failed authentication.
    CorruptCiphertext,
    /// A manifest blob is too short or failed authentication.
    CorruptManifest,
    /// A key is not 32 bytes long, or a nonce is not 12 bytes long.
    InvalidKey,
    /// A payload is too long for the compressor or the cipher.
    PayloadTooLarge,
    /// A compressed payload is malformed or would inflate beyond the limit.
    DecompressOverflow,
    /// Fewer than six shards of a chunk are at hand.
    InsufficientShards,
    /// The shards of a chunk are not ten slots of one non-zero length.
    ShardLengthMismatch,
    /// Connecting to a peer timed out.
    ConnectTimeout,
    /// Writing to a peer timed out.
    WriteTimeout,
    /// Reading from a peer timed out.
    ReadTimeout,
    /// The peer answered a request with its error token.
    RemoteError,
    /// The peer could not be reached.
    Unreachable,
    /// No manifest is stored under the file identifier.
    ManifestNotFound,
    /// The peer holds no shard under the identifier.
    ShardNotFound,
    /// No peer was found to upload to.
    NoPeers,
    /// Fewer than six shards of some chunk were placed.
    InsufficientPlacement,
}

/// The classes into which the errors fall.
#[derive(Clone, Copy, Debug, PartialEq, Eq, Structural)]
pub enum ErrorKind {
    Configuration,
    Crypto,
    Codec,
    Erasure,
    Network,
    Storage,
    Placement,
}

impl StoreError {
    /// The class of each error.
    pub open spec fn kind_of(self) -> ErrorKind {
        match self {
            StoreError::InvalidKeyFile => ErrorKind::Configuration,
            StoreError::EmptyPassword => ErrorKind::Configuration,
            StoreError::UnparseablePort => ErrorKind::Configuration,
            StoreError::KeyDerivation => ErrorKind::Configuration,
            StoreError::CorruptCiphertext => ErrorKind::Crypto,
            StoreError::CorruptManifest => ErrorKind::Crypto,
            StoreError::InvalidKey => ErrorKind::Crypto,
            StoreError::PayloadTooLarge => ErrorKind::Codec,
            StoreError::DecompressOverflow => ErrorKind::Codec,
            StoreError::InsufficientShards => ErrorKind::Erasure,
            StoreError::ShardLengthMismatch => ErrorKind::Erasure,
            StoreError::ConnectTimeout => ErrorKind::Network,
            StoreError::WriteTimeout => ErrorKind::Network,
            StoreError::ReadTimeout => ErrorKind::Network,
            StoreError::RemoteError => ErrorKind::Network,
            StoreError::Unreachable => ErrorKind::Network,
            StoreError::ManifestNotFound => ErrorKind::Storage,
            StoreError::ShardNotFound => ErrorKind::Storage,
            StoreError::NoPeers => ErrorKind::Placement,
            StoreError::InsufficientPlacement => ErrorKind::Placement,
        }
    }

    /// Network errors concern one shard only: the shard is skipped and the
    /// operation goes on. Every other error ends the operation it arose in.
    pub open spec fn is_recoverable(self) -> bool {
        self.kind_of() == ErrorKind::Network
    }

    /// Computes `kind_of`.
    pub fn kind(&self) -> (kind: ErrorKind)
        ensures
            kind == self.kind_of(),
    {
        match self {
            StoreError::InvalidKeyFile => ErrorKind::Configuration,
            StoreError::EmptyPassword => ErrorKind::Configuration,
            StoreError::UnparseablePort => ErrorKind::Configuration,
            StoreError::KeyDerivation => ErrorKind::Configuration,
            StoreError::CorruptCiphertext => ErrorKind::Crypto,
            StoreError::CorruptManifest => ErrorKind::Crypto,
            StoreError::InvalidKey => ErrorKind::Crypto,
            StoreError::PayloadTooLarge => ErrorKind::Codec,
            StoreError::DecompressOverflow => ErrorKind::Codec,
            StoreError::InsufficientShards => ErrorKind::Erasure,
            StoreError::ShardLengthMismatch => ErrorKind::Erasure,
            StoreError::ConnectTimeout => ErrorKind::Network,
            StoreError::WriteTimeout => ErrorKind::Network,
            StoreError::ReadTimeout => ErrorKind::Network,
            StoreError::RemoteError => ErrorKind::Network,
            StoreError::Unreachable => ErrorKind::Network,
            StoreError::ManifestNotFound => ErrorKind::Storage,
            StoreError::ShardNotFound => ErrorKind::Storage,
            StoreError::NoPeers => ErrorKind::Placement,
            StoreError::InsufficientPlacement => ErrorKind::Placement,
        }
    }

    /// Whether the operation may go on after this error.
    pub fn recoverable(&self) -> (yes: bool)
        ensures
            yes == self.is_recoverable(),
    {
        match self.kind() {
            ErrorKind::Network => true,
            _ => false,
        }
    }
}

} // verus!
