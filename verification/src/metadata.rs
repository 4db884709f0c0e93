//! Loading the trailing footer and metadata block of a columnar data file
//! with at most two byte-range reads.
//!
//! A file ends in a fixed eight-byte footer: a four-byte little-endian
//! metadata length followed by the magic marker. The metadata block of that
//! length immediately precedes the footer. A loader first fetches a trailing
//! window of `DEFAULT_PREFETCH_SIZE` bytes (or the whole file when shorter);
//! when the metadata block lies inside that window it is decoded with no
//! further I/O, otherwise exactly one more read fetches the missing prefix.
//!
//! The functions here are the loader's decisions: what to read first, what
//! to conclude from the window, which bytes exactly form the metadata
//! block, and what its decode outcome means. The I/O shell around the
//! library performs the reads and the decode call itself — a hostile block
//! can make the decoder abort, which ordinary Rust can fence and the
//! verified library cannot promise away — and hands outcome and bytes back.
use vstd::prelude::*;

verus! {

use crate::error::{FormatIssue, StorageError};
use parquet::file::metadata::ParquetMetaData;

/// Size in bytes of the fixed trailing footer: a four-byte metadata length
/// and the four-byte magic marker.
pub const FOOTER_SIZE: u64 = 8;

/// How many trailing bytes the first speculative read fetches.
pub const DEFAULT_PREFETCH_SIZE: u64 = 64 * 1024;

/// The decoded structural metadata of a columnar file.
#[verifier::external_type_specification]
#[verifier::external_body]
pub struct ExParquetMetaData(ParquetMetaData);

/// How many bytes the first read covers: the prefetch window, capped by the
/// file size.
pub open spec fn prefetch_len(file_size: u64) -> int {
    if file_size < DEFAULT_PREFETCH_SIZE {
        file_size as int
    } else {
        DEFAULT_PREFETCH_SIZE as int
    }
}

/// The metadata length declared by the eight-byte footer `b`: its first four
/// bytes read as a little-endian integer.
pub open spec fn footer_metadata_len(b: Seq<u8>) -> int
    recommends
        b.len() == 8,
{
    b[0] + 256 * b[1] + 65536 * b[2] + 16777216 * b[3]
}

/// True when the eight-byte footer `b` ends in the magic marker `PAR1`.
pub open spec fn footer_magic_ok(b: Seq<u8>) -> bool
    recommends
        b.len() == 8,
{
    b[4] == 0x50u8 && b[5] == 0x41u8 && b[6] == 0x52u8 && b[7] == 0x31u8
}

/// The trailing eight bytes of `buffer`.
pub open spec fn footer_of(buffer: Seq<u8>) -> Seq<u8>
    recommends
        buffer.len() >= 8,
{
    buffer.subrange(buffer.len() - 8, buffer.len() as int)
}

/// Decodes the eight-byte footer: checks the magic marker and reads the
/// metadata length.
pub fn decode_footer(footer: &Vec<u8>) -> (r: Option<u32>)
    requires
        footer@.len() == 8,
    ensures
        r is Some <==> footer_magic_ok(footer@),
        r is Some ==> r.unwrap() as int == footer_metadata_len(footer@),
{
    if footer[4] == 0x50u8 && footer[5] == 0x41u8 && footer[6] == 0x52u8 && footer[7] == 0x31u8 {
        let len: u32 = footer[0] as u32 + 256 * (footer[1] as u32) + 65536 * (footer[2] as u32)
            + 16777216 * (footer[3] as u32);
        Some(len)
    } else {
        None
    }
}

/// Copies the trailing `k` bytes of `v`.
fn tail_bytes(v: &Vec<u8>, k: usize) -> (r: Vec<u8>)
    requires
        k <= v@.len(),
    ensures
        r@ == v@.subrange(v@.len() - k, v@.len() as int),
{
    let mut r: Vec<u8> = Vec::with_capacity(k);
    let mut i: usize = v.len() - k;
    while i < v.len()
        invariant
            v@.len() - k <= i <= v@.len(),
            k <= v@.len(),
            r@ =~= v@.subrange(v@.len() - k, i as int),
        decreases v@.len() - i,
    {
        r.push(v[i]);
        proof {
            assert(v@.subrange(v@.len() - k, i + 1) =~= v@.subrange(v@.len() - k, i as int).push(
                v@[i as int],
            ));
        }
        i = i + 1;
    }
    r
}

/// The first read the loader issues for a file of `file_size` bytes: the
/// trailing prefetch window, as a half-open byte interval. A file shorter
/// than the footer is rejected with `InvalidFormat` before any range read.
pub fn plan_initial_read(file_path: &str, file_size: u64) -> (r: Result<(u64, u64), StorageError>)
    ensures
        file_size < FOOTER_SIZE ==> (r matches Err(StorageError::InvalidFormat { file, reason })
            && file@ == file_path@ && reason == FormatIssue::UndersizedFile),
        file_size >= FOOTER_SIZE ==> (r matches Ok((start, end)) && end == file_size && start
            == file_size - prefetch_len(file_size)),
{
    if file_size < FOOTER_SIZE {
        return Err(
            StorageError::InvalidFormat {
                file: file_path.to_owned(),
                reason: FormatIssue::UndersizedFile,
            },
        );
    }
    let prefetch: u64 = if file_size < DEFAULT_PREFETCH_SIZE {
        file_size
    } else {
        DEFAULT_PREFETCH_SIZE
    };
    Ok((file_size - prefetch, file_size))
}

/// What the loader concluded from the prefetched window.
#[derive(Debug)]
pub enum PrefetchOutcome {
    /// The whole metadata block lay inside the window: `meta_bytes` is the
    /// block and the footer, to be decoded with no second read.
    MetadataInWindow { meta_bytes: Vec<u8> },
    /// The metadata block starts before the window: read the half-open byte
    /// interval `[start, end)`, put it through `assemble_metadata` with the
    /// window, and decode that. `suffix` is the window handed back
    /// unchanged.
    NeedTail { start: u64, end: u64, suffix: Vec<u8> },
}

/// Interprets the prefetched trailing window of a file.
///
/// Checks the footer magic, rejects a declared metadata length that cannot
/// fit in the file, and either hands out the metadata block directly from
/// the window (when it lies within it) or says which missing prefix to
/// read.
pub fn process_prefetch(file_path: &str, file_size: u64, buffer: Vec<u8>) -> (r: Result<
    PrefetchOutcome,
    StorageError,
>)
    requires
        file_size >= FOOTER_SIZE,
        buffer@.len() == prefetch_len(file_size),
    ensures
        !footer_magic_ok(footer_of(buffer@)) ==> (r matches Err(
            StorageError::InvalidFormat { file, reason },
        ) && file@ == file_path@ && reason == FormatIssue::CorruptFooter),
        ({
            let mlen = footer_metadata_len(footer_of(buffer@));
            &&& (footer_magic_ok(footer_of(buffer@)) && mlen + FOOTER_SIZE > file_size ==> (r matches Err(
                StorageError::InvalidFormat { file, reason },
            ) && file@ == file_path@ && reason == (FormatIssue::OversizedMetadata {
                metadata_len: mlen as u64,
                file_size,
            })))
            &&& (footer_magic_ok(footer_of(buffer@)) && mlen + FOOTER_SIZE <= file_size && mlen
                + FOOTER_SIZE <= buffer@.len() ==> (r matches Ok(
                PrefetchOutcome::MetadataInWindow { meta_bytes },
            ) && meta_bytes@ == buffer@.subrange(
                buffer@.len() - (mlen + FOOTER_SIZE),
                buffer@.len() as int,
            )))
            &&& (footer_magic_ok(footer_of(buffer@)) && mlen + FOOTER_SIZE <= file_size && mlen
                + FOOTER_SIZE > buffer@.len() ==> (r matches Ok(
                PrefetchOutcome::NeedTail { start, end, suffix },
            ) && start == file_size - (mlen + FOOTER_SIZE) && end == file_size - buffer@.len()
                && suffix@ == buffer@))
        }),
{
    let buffer_len = buffer.len();
    let footer = tail_bytes(&buffer, 8);
    let metadata_len: u32 = match decode_footer(&footer) {
        Some(len) => len,
        None => {
            return Err(
                StorageError::InvalidFormat {
                    file: file_path.to_owned(),
                    reason: FormatIssue::CorruptFooter,
                },
            );
        },
    };

    let footer_len: u64 = metadata_len as u64 + FOOTER_SIZE;
    if footer_len > file_size {
        return Err(
            StorageError::InvalidFormat {
                file: file_path.to_owned(),
                reason: FormatIssue::OversizedMetadata {
                    metadata_len: metadata_len as u64,
                    file_size,
                },
            },
        );
    }

    if footer_len <= buffer_len as u64 {
        // The whole metadata block is inside the window.
        let meta_bytes = tail_bytes(&buffer, footer_len as usize);
        Ok(PrefetchOutcome::MetadataInWindow { meta_bytes })
    } else {
        Ok(
            PrefetchOutcome::NeedTail {
                start: file_size - footer_len,
                end: file_size - buffer_len as u64,
                suffix: buffer,
            },
        )
    }
}

/// Assembles the metadata block of a two-read load: the missing prefix
/// fetched by the second read, followed by the prefetched window.
pub fn assemble_metadata(prefix: &Vec<u8>, suffix: &Vec<u8>) -> (r: Vec<u8>)
    ensures
        r@ == prefix@ + suffix@,
{
    let mut data: Vec<u8> = Vec::new();
    let mut i: usize = 0;
    while i < prefix.len()
        invariant
            i <= prefix@.len(),
            data@ =~= prefix@.subrange(0, i as int),
        decreases prefix@.len() - i,
    {
        data.push(prefix[i]);
        proof {
            assert(prefix@.subrange(0, i + 1) =~= prefix@.subrange(0, i as int).push(
                prefix@[i as int],
            ));
        }
        i = i + 1;
    }
    let mut j: usize = 0;
    while j < suffix.len()
        invariant
            j <= suffix@.len(),
            data@ =~= prefix@ + suffix@.subrange(0, j as int),
        decreases suffix@.len() - j,
    {
        data.push(suffix[j]);
        proof {
            assert(suffix@.subrange(0, j + 1) =~= suffix@.subrange(0, j as int).push(
                suffix@[j as int],
            ));
        }
        j = j + 1;
    }
    proof {
        assert(data@ =~= prefix@ + suffix@);
    }
    data
}

/// Maps the outcome of decoding a metadata block: a decoded value is the
/// load's result, and a failed decode — whatever made the decoder give up —
/// is `InvalidFormat` naming the file. The decode call itself lives in the
/// shell; this says what the load returns for every value it can hand back.
pub fn resolve_decoded(file_path: &str, decoded: Option<ParquetMetaData>) -> (r: Result<
    ParquetMetaData,
    StorageError,
>)
    ensures
        decoded matches Some(m) ==> (r matches Ok(d) && d == m),
        decoded is None ==> (r matches Err(StorageError::InvalidFormat { file, reason }) && file@
            == file_path@ && reason == FormatIssue::UndecodableMetadata),
{
    match decoded {
        Some(m) => Ok(m),
        None => Err(
            StorageError::InvalidFormat {
                file: file_path.to_owned(),
                reason: FormatIssue::UndecodableMetadata,
            },
        ),
    }
}

/// The bytes the loader decodes are the trailing `footer_len` bytes of the
/// file, whichever path it takes: on the fast path they are the tail of the
/// prefetched window, and on the two-read path they are the fetched prefix
/// followed by the window. The decoded metadata is therefore the same as
/// from reading the whole file, and independent of the window size used.
pub proof fn lemma_load_reads_exact_tail(file: Seq<u8>, prefetch: int, footer_len: int)
    requires
        0 < footer_len <= file.len(),
        0 < prefetch <= file.len(),
    ensures
        footer_len <= prefetch ==> file.subrange(file.len() - prefetch, file.len() as int).subrange(
            prefetch - footer_len,
            prefetch,
        ) == file.subrange(file.len() - footer_len, file.len() as int),
        footer_len > prefetch ==> file.subrange(file.len() - footer_len, file.len() - prefetch)
            + file.subrange(file.len() - prefetch, file.len() as int) == file.subrange(
            file.len() - footer_len,
            file.len() as int,
        ),
{
    if footer_len <= prefetch {
        assert(file.subrange(file.len() - prefetch, file.len() as int).subrange(
            prefetch - footer_len,
            prefetch,
        ) =~= file.subrange(file.len() - footer_len, file.len() as int));
    } else {
        assert(file.subrange(file.len() - footer_len, file.len() - prefetch) + file.subrange(
            file.len() - prefetch,
            file.len() as int,
        ) =~= file.subrange(file.len() - footer_len, file.len() as int));
    }
}

} // verus!
