use vstd::prelude::*;

verus! {

/// Errors raised while decoding a depot manifest or decrypting its
/// file names.
#[derive(Debug)]
pub enum ManifestError {
    /// A section magic was wrong or missing; the message names the
    /// section that was expected.
    MagicMismatch(String),
    /// The framed stream ended before a read completed.
    TruncatedFrame,
    /// A section body could not be decoded as a protobuf message.
    ProtobufDecode(String),
    /// The surrounding archive could not be read.
    ArchiveError(String),
    /// A ciphertext was too short or its padding was malformed.
    CryptoError,
    /// An encrypted file name was not valid base64.
    Base64Error,
    /// A decrypted file name was not valid UTF-8.
    Utf8Error,
    /// The file table broke the size or chunk-ordering invariant.
    FileLayout,
}

/// Errors raised by the chunk pipeline and per-chunk verification.
#[derive(Debug)]
pub enum ChunkError {
    /// The chunk ciphertext was too short or its padding was malformed.
    CryptoError,
    /// The plaintext began with an unknown container magic.
    FormatError,
    /// The zip container could not be read.
    ArchiveError(String),
    /// The LZMA stream could not be decompressed.
    LzmaError(String),
    /// The container's own trailing checksum did not match.
    TailCrcMismatch,
    /// The decoded chunk length differed from the descriptor.
    ChunkSizeMismatch,
    /// The decoded chunk checksum differed from the descriptor.
    ChunkCrcMismatch,
}

/// Top-level error of the client.
#[derive(Debug)]
pub enum Error {
    /// An invariant of a control-plane response was violated.
    Unexpected(String),
    /// The HTTP client layer failed.
    Request(String),
    /// An edge server answered with a non-success status.
    HttpStatus(u16),
    /// The control-plane transport failed.
    Network(String),
    /// The server pool has no usable entry.
    NoServers,
    /// A key-value text buffer was malformed.
    InvalidVDF(String),
    /// Manifest decoding failed.
    Manifest(ManifestError),
    /// Chunk decoding or verification failed.
    Chunk(ChunkError),
    /// An expected optional field was absent in a key-value tree.
    NoneOption,
}

} // verus!
