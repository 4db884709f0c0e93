//! Tiered file I/O support for a columnar storage engine: byte-range
//! coalescing, columnar-file footer and metadata loading, a write-through
//! cache that promotes locally staged files to remote object stores, and the
//! small value types the engine shares with its callers.
pub mod cast;
pub mod data_type;
pub mod decimal;
pub mod decimal_type;
pub mod duration_type;
pub mod error;
pub mod fetch;
pub mod metadata;
pub mod projection;
pub mod ranges;
pub mod scalars;
pub mod strfmt;
pub mod time;
pub mod write_cache;
