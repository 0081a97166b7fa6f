//! Exit codes following Unix sysexits.h conventions.
use vstd::prelude::*;

use crate::error::{IoErrorKind, WordTallyError};

verus! {

/// Exit codes following Unix sysexits.h convention.
#[derive(Clone, Copy, Debug, PartialEq, Eq, PartialOrd, Ord, Hash)]
pub enum ExitCode {
    /// Successful termination.
    Success,
    /// General failure.
    Failure,
    /// Command line usage error.
    Usage,
    /// Data format error.
    Data,
    /// Cannot open input.
    NoInput,
    /// Internal software error.
    Software,
    /// Cannot create output.
    CannotCreate,
    /// I/O error.
    Io,
    /// Permission denied.
    NoPermission,
}

/// The number of each exit code, as sysexits.h gives it.
pub open spec fn exit_code_number(code: ExitCode) -> u8 {
    match code {
        ExitCode::Success => 0,
        ExitCode::Failure => 1,
        ExitCode::Usage => 64,
        ExitCode::Data => 65,
        ExitCode::NoInput => 66,
        ExitCode::Software => 70,
        ExitCode::CannotCreate => 73,
        ExitCode::Io => 74,
        ExitCode::NoPermission => 77,
    }
}

/// The exit code for an I/O failure of the given kind.
pub open spec fn io_exit_code(kind: IoErrorKind) -> ExitCode {
    match kind {
        IoErrorKind::NotFound => ExitCode::NoInput,
        IoErrorKind::PermissionDenied => ExitCode::NoPermission,
        IoErrorKind::Other => ExitCode::Io,
    }
}

/// The exit code for each error of the library.
pub open spec fn error_exit_code(error: WordTallyError) -> ExitCode {
    match error {
        WordTallyError::Usage(_)
        | WordTallyError::MmapStdin
        | WordTallyError::BytesWithPath
        | WordTallyError::BytesInputRequired
        | WordTallyError::Config(_) => ExitCode::Usage,
        WordTallyError::Utf8 { .. }
        | WordTallyError::Pattern { .. }
        | WordTallyError::JsonSerialization(_)
        | WordTallyError::CsvSerialization(_)
        | WordTallyError::ChunkCountExceeded { .. }
        | WordTallyError::BatchSizeExceeded { .. }
        | WordTallyError::NonAsciiInAsciiMode { .. } => ExitCode::Data,
        WordTallyError::MutexPoisoned => ExitCode::Software,
        WordTallyError::Io { kind, .. } => io_exit_code(kind),
        WordTallyError::OutputCreation { .. } => ExitCode::CannotCreate,
    }
}

impl ExitCode {
    /// The process exit status of this code.
    pub fn code(self) -> (code: u8)
        ensures
            code == exit_code_number(self),
    {
        match self {
            ExitCode::Success => 0,
            ExitCode::Failure => 1,
            ExitCode::Usage => 64,
            ExitCode::Data => 65,
            ExitCode::NoInput => 66,
            ExitCode::Software => 70,
            ExitCode::CannotCreate => 73,
            ExitCode::Io => 74,
            ExitCode::NoPermission => 77,
        }
    }

    /// The exit code for an I/O error of the given kind.
    pub fn from_io_kind(kind: IoErrorKind) -> (code: Self)
        ensures
            code == io_exit_code(kind),
    {
        match kind {
            IoErrorKind::NotFound => ExitCode::NoInput,
            IoErrorKind::PermissionDenied => ExitCode::NoPermission,
                IoErrorKind::Other => ExitCode::Io,
        }
    }

    /// The exit code for a command-line parse outcome: success for a displayed help or version
    /// text, a usage error otherwise.
    pub fn from_command_line(displays_help_or_version: bool) -> (code: Self)
        ensures
            code == (if displays_help_or_version {
                ExitCode::Success
            } else {
                ExitCode::Usage
            }),
    {
        if displays_help_or_version {
            ExitCode::Success
        } else {
            ExitCode::Usage
        }
    }

    /// The exit code for an error of the library.
    pub fn from_error(error: &WordTallyError) -> (code: Self)
        ensures
            code == error_exit_code(*error),
    {
        match error {
            WordTallyError::Usage(_)
            | WordTallyError::MmapStdin
            | WordTallyError::BytesWithPath
            | WordTallyError::BytesInputRequired
            | WordTallyError::Config(_) => ExitCode::Usage,
            WordTallyError::Utf8 { .. }
            | WordTallyError::Pattern { .. }
            | WordTallyError::JsonSerialization(_)
            | WordTallyError::CsvSerialization(_)
            | WordTallyError::ChunkCountExceeded { .. }
            | WordTallyError::BatchSizeExceeded { .. }
            | WordTallyError::NonAsciiInAsciiMode { .. } => ExitCode::Data,
            WordTallyError::MutexPoisoned => ExitCode::Software,
            WordTallyError::Io { kind, .. } => Self::from_io_kind(*kind),
            WordTallyError::OutputCreation { .. } => ExitCode::CannotCreate,
        }
    }
}

/// Every error exits with the sysexits code of its class: 64 for usage and configuration
/// errors, 65 for data that cannot be read or written (UTF-8, patterns, serialization, sizes,
/// non-ASCII input), 66 for an input that does not exist, 70 for an internal failure, 73 when
/// the output cannot be created, 74 for other I/O failures and 77 when permission is denied.
/// No error exits with 0.
pub proof fn lemma_error_exit_codes(error: WordTallyError)
    ensures
        exit_code_number(error_exit_code(error)) == (match error {
            WordTallyError::Usage(_)
            | WordTallyError::MmapStdin
            | WordTallyError::BytesWithPath
            | WordTallyError::BytesInputRequired
            | WordTallyError::Config(_) => 64u8,
            WordTallyError::Utf8 { .. }
            | WordTallyError::Pattern { .. }
            | WordTallyError::JsonSerialization(_)
            | WordTallyError::CsvSerialization(_)
            | WordTallyError::ChunkCountExceeded { .. }
            | WordTallyError::BatchSizeExceeded { .. }
            | WordTallyError::NonAsciiInAsciiMode { .. } => 65u8,
            WordTallyError::Io { kind: IoErrorKind::NotFound, .. } => 66u8,
            WordTallyError::MutexPoisoned => 70u8,
            WordTallyError::OutputCreation { .. } => 73u8,
            WordTallyError::Io { kind: IoErrorKind::Other, .. } => 74u8,
            WordTallyError::Io { kind: IoErrorKind::PermissionDenied, .. } => 77u8,
        }),
        exit_code_number(error_exit_code(error)) != 0,
{
}

} // verus!
