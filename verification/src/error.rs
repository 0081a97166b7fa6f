//! Error types for word-tally.
use vstd::prelude::*;

verus! {

/// The kind of an I/O failure, as far as the exit codes tell kinds apart.
#[derive(Clone, Copy, Debug, PartialEq, Eq, Hash)]
pub enum IoErrorKind {
    /// The file or directory does not exist.
    NotFound,
    /// The operation lacked the necessary privileges.
    PermissionDenied,
    /// Any other I/O failure.
    Other,
}

/// Structured error types for word-tally.
#[allow(inconsistent_fields)]
#[derive(Clone, Debug, PartialEq, Eq)]
pub enum WordTallyError {
    /// Invalid command-line usage.
    Usage(String),

    /// Memory-mapped I/O attempted on stdin.
    MmapStdin,

    /// Byte I/O mode used with file path.
    BytesWithPath,

    /// Parallel bytes mode requires bytes input.
    BytesInputRequired,

    /// UTF-8 decoding error.
    Utf8 {
        /// Byte position of invalid UTF-8.
        byte: usize,
        /// Error message.
        message: String,
    },

    /// Invalid regex pattern.
    Pattern {
        /// Pattern type (include/exclude).
        kind: String,
        /// Error message.
        message: String,
    },

    /// JSON serialization error, with the serializer's message.
    JsonSerialization(String),

    /// CSV serialization error, with the serializer's message.
    CsvSerialization(String),

    /// Chunk count exceeds platform limits.
    ChunkCountExceeded {
        /// Number of chunks requested.
        chunks: u64,
    },

    /// Batch size exceeds platform limits.
    BatchSizeExceeded {
        /// Batch size in bytes.
        size: u64,
    },

    /// I/O error with context.
    Io {
        /// File path where error occurred.
        path: String,
        /// Error description.
        message: String,
        /// The kind of the underlying I/O error.
        kind: IoErrorKind,
    },

    /// The output file could not be created.
    OutputCreation {
        /// Path of the output file.
        path: String,
        /// Error description.
        message: String,
    },

    /// Configuration error.
    Config(String),

    /// Non-ASCII byte in ASCII-only mode.
    NonAsciiInAsciiMode {
        /// The non-ASCII byte value.
        byte: u8,
        /// Byte position in input.
        position: usize,
    },

    /// A lock was poisoned by a panic in another thread.
    MutexPoisoned,
}

} // verus!
