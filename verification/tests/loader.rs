use std::sync::Arc;

use parquet::file::metadata::ParquetMetaDataReader;
use parquet::file::writer::SerializedFileWriter;
use parquet::schema::parser::parse_message_type;
use tiered_io::error::{FormatIssue, StorageError};
use tiered_io::metadata::{
    assemble_metadata, decode_footer, plan_initial_read, process_prefetch, resolve_decoded,
    PrefetchOutcome, DEFAULT_PREFETCH_SIZE, FOOTER_SIZE,
};

/// A minimal columnar file: one int32 column, no rows, with one key-value
/// entry whose value is `pad` bytes long to inflate the metadata block.
fn parquet_file_bytes(pad: usize) -> Vec<u8> {
    let schema = Arc::new(parse_message_type("message schema { required int32 x; }").unwrap());
    let kv = parquet::format::KeyValue {
        key: "padding".to_string(),
        value: Some("x".repeat(pad)),
    };
    let props = Arc::new(
        parquet::file::properties::WriterProperties::builder()
            .set_key_value_metadata(Some(vec![kv]))
            .build(),
    );
    let mut buf: Vec<u8> = Vec::new();
    let writer = SerializedFileWriter::new(&mut buf, schema, props).unwrap();
    writer.close().unwrap();
    buf
}

#[test]
fn test_undersized_file_rejected() {
    let r = plan_initial_read("short.parquet", FOOTER_SIZE - 1);
    match r {
        Err(StorageError::InvalidFormat { file, reason }) => {
            assert_eq!(file, "short.parquet");
            assert_eq!(reason, FormatIssue::UndersizedFile);
        }
        other => panic!("expected InvalidFormat, got {:?}", other),
    }
}

#[test]
fn test_initial_read_is_trailing_window() {
    let (start, end) = plan_initial_read("f.parquet", 100).unwrap();
    assert_eq!((start, end), (0, 100));
    let (start, end) = plan_initial_read("f.parquet", 1 << 20).unwrap();
    assert_eq!(end, 1 << 20);
    assert_eq!(end - start, DEFAULT_PREFETCH_SIZE);
}

#[test]
fn test_decode_footer() {
    let good = vec![4u8, 0, 0, 0, 0x50, 0x41, 0x52, 0x31];
    assert_eq!(decode_footer(&good), Some(4));
    let big = vec![0x01u8, 0x02, 0x03, 0x04, 0x50, 0x41, 0x52, 0x31];
    assert_eq!(decode_footer(&big), Some(0x04030201));
    let bad = vec![4u8, 0, 0, 0, 0x50, 0x41, 0x52, 0x32];
    assert_eq!(decode_footer(&bad), None);
}

#[test]
fn test_corrupt_footer_rejected() {
    let buffer = vec![0u8; 64];
    let r = process_prefetch("bad.parquet", 64, buffer);
    match r {
        Err(StorageError::InvalidFormat { file, reason }) => {
            assert_eq!(file, "bad.parquet");
            assert_eq!(reason, FormatIssue::CorruptFooter);
        }
        other => panic!("expected InvalidFormat, got {:?}", other),
    }
}

#[test]
fn test_oversized_metadata_rejected() {
    let buffer = vec![0xFFu8, 0xFF, 0xFF, 0x7F, 0x50, 0x41, 0x52, 0x31];
    let r = process_prefetch("trunc.parquet", 8, buffer);
    match r {
        Err(StorageError::InvalidFormat { file, reason }) => {
            assert_eq!(file, "trunc.parquet");
            assert_eq!(
                reason,
                FormatIssue::OversizedMetadata { metadata_len: 0x7FFFFFFF, file_size: 8 }
            );
        }
        other => panic!("expected InvalidFormat, got {:?}", other),
    }
}

#[test]
fn test_undecodable_metadata_rejected() {
    // the window hands out the garbage block; its failed decode is the
    // load's InvalidFormat
    let mut buffer = vec![0xFFu8, 0xFF, 0xFF, 0xFF];
    buffer.extend_from_slice(&[4u8, 0, 0, 0, 0x50, 0x41, 0x52, 0x31]);
    let r = process_prefetch("garbage.parquet", buffer.len() as u64, buffer);
    match r {
        Ok(PrefetchOutcome::MetadataInWindow { meta_bytes }) => {
            let decoded = ParquetMetaDataReader::decode_metadata(&meta_bytes).ok();
            assert!(decoded.is_none());
            match resolve_decoded("garbage.parquet", decoded) {
                Err(StorageError::InvalidFormat { file, reason }) => {
                    assert_eq!(file, "garbage.parquet");
                    assert_eq!(reason, FormatIssue::UndecodableMetadata);
                }
                other => panic!("expected InvalidFormat, got {:?}", other),
            }
        }
        other => panic!("expected the block handed out of the window, got {:?}", other),
    }
}

#[test]
fn test_fast_path_single_read() {
    let bytes = parquet_file_bytes(16);
    let file_size = bytes.len() as u64;
    let (start, end) = plan_initial_read("small.parquet", file_size).unwrap();
    assert_eq!((start, end), (0, file_size));

    let outcome = process_prefetch("small.parquet", file_size, bytes.clone()).unwrap();
    match outcome {
        PrefetchOutcome::MetadataInWindow { meta_bytes } => {
            // the block handed out is exactly the file's tail
            assert_eq!(&meta_bytes[..], &bytes[bytes.len() - meta_bytes.len()..]);
            let decoded = ParquetMetaDataReader::decode_metadata(&meta_bytes).ok();
            let meta = resolve_decoded("small.parquet", decoded).unwrap();
            assert_eq!(meta.file_metadata().num_rows(), 0);
            let kv = meta.file_metadata().key_value_metadata().unwrap();
            assert_eq!(kv[0].key, "padding");
        }
        PrefetchOutcome::NeedTail { .. } => panic!("small metadata must fit in the window"),
    }
}

#[test]
fn test_slow_path_two_reads() {
    // a metadata block larger than the prefetch window
    let bytes = parquet_file_bytes(2 * DEFAULT_PREFETCH_SIZE as usize);
    let file_size = bytes.len() as u64;
    let (start, end) = plan_initial_read("large.parquet", file_size).unwrap();
    assert_eq!(end, file_size);
    assert_eq!(end - start, DEFAULT_PREFETCH_SIZE);

    let window = bytes[start as usize..end as usize].to_vec();
    let outcome = process_prefetch("large.parquet", file_size, window).unwrap();
    match outcome {
        PrefetchOutcome::MetadataInWindow { .. } => {
            panic!("oversized metadata cannot lie in the window")
        }
        PrefetchOutcome::NeedTail { start: s2, end: e2, suffix } => {
            assert_eq!(e2, file_size - DEFAULT_PREFETCH_SIZE);
            assert!(s2 < e2);
            let prefix = bytes[s2 as usize..e2 as usize].to_vec();
            let data = assemble_metadata(&prefix, &suffix);
            // the assembled block is exactly the file's tail
            assert_eq!(&data[..], &bytes[s2 as usize..]);
            let decoded = ParquetMetaDataReader::decode_metadata(&data).ok();
            let meta = resolve_decoded("large.parquet", decoded).unwrap();
            let kv = meta.file_metadata().key_value_metadata().unwrap();
            assert_eq!(kv[0].value.as_ref().unwrap().len(), 2 * DEFAULT_PREFETCH_SIZE as usize);
        }
    }
}
