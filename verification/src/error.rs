//! Error kinds surfaced by the storage layer.
use vstd::prelude::*;

verus! {

/// Why a columnar file's footer or metadata was rejected.
#[derive(Debug, Clone, Copy, PartialEq, Eq, Structural)]
pub enum FormatIssue {
    /// The file is shorter than the fixed-size footer.
    UndersizedFile,
    /// The trailing magic marker is wrong.
    CorruptFooter,
    /// The declared metadata length plus the fixed eight-byte footer
    /// exceeds the file size: the file is corrupt or truncated.
    OversizedMetadata { metadata_len: u64, file_size: u64 },
    /// The metadata bytes do not decode to a structurally valid description.
    UndecodableMetadata,
}

/// Errors of the tiered storage layer.
///
/// Transport failures (`BackendIo`) and scheduling failures
/// (`TaskSchedulingFailure`) originate in the unverified I/O shell around this
/// library; the library itself produces `StoreNotFound` and `InvalidFormat`.
#[derive(Debug, Clone, PartialEq, Eq)]
pub enum StorageError {
    /// An upload names a target store that is not registered.
    StoreNotFound { store: String },
    /// A columnar file's footer or metadata is malformed.
    InvalidFormat { file: String, reason: FormatIssue },
    /// The object store failed while performing `operation` on `path`.
    BackendIo { operation: String, path: String },
    /// The runtime could not schedule or finish a background operation.
    TaskSchedulingFailure,
}

} // verus!
