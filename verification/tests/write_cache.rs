use std::collections::HashMap;

use tiered_io::error::StorageError;
use tiered_io::write_cache::{
    first_failure, plan_upload, sst_file_path, FileMeta, FileTimeRange, RegionId, RegionMetadata,
    StoreRegistry, Upload, UploadPartWriter,
};

fn file_meta(region_id: RegionId, file_id: &str, size: u64) -> FileMeta {
    FileMeta {
        region_id,
        file_id: file_id.to_string(),
        time_range: FileTimeRange { min_ts: 0, max_ts: 1000 },
        level: 0,
        file_size: size,
    }
}

#[test]
fn test_sst_file_path() {
    assert_eq!(sst_file_path("region/1", "f1"), "region/1/f1.parquet");
    assert_eq!(sst_file_path("", "f2"), "/f2.parquet");
}

#[test]
fn test_part_writer_builds_part() {
    let region_id = RegionId { table_id: 7, region_number: 2 };
    let metadata = RegionMetadata { region_id };
    let mut writer = UploadPartWriter::new(metadata)
        .with_region_dir("region/7".to_string())
        .with_storage(Some("cold".to_string()));
    writer.reserve_capacity(3);
    writer.add_sst(file_meta(region_id, "f1", 10));
    writer.extend_ssts(vec![
        file_meta(region_id, "f2", 20),
        file_meta(region_id, "f3", 30),
    ]);
    assert_eq!(writer.written_file_metas().len(), 3);
    assert_eq!(writer.written_file_metas()[1].file_id, "f2");

    let part = writer.finish();
    assert_eq!(part.region_id, region_id);
    assert_eq!(part.region_dir, "region/7");
    assert_eq!(part.storage, Some("cold".to_string()));
    assert_eq!(part.file_metas.len(), 3);
}

#[test]
fn test_upload_without_store_is_noop() {
    let region_id = RegionId { table_id: 1, region_number: 1 };
    let metadata = RegionMetadata { region_id };
    let mut writer = UploadPartWriter::new(metadata).with_region_dir("r".to_string());
    writer.add_sst(file_meta(region_id, "f1", 10));
    let part = writer.finish();

    let registry = StoreRegistry::new();
    let upload = Upload { parts: vec![part] };
    let transfers = plan_upload(&upload, &registry).unwrap();
    assert!(transfers.is_empty());
}

#[test]
fn test_upload_unknown_store_fails() {
    let region_id = RegionId { table_id: 1, region_number: 1 };
    let metadata = RegionMetadata { region_id };
    let mut writer = UploadPartWriter::new(metadata)
        .with_region_dir("r".to_string())
        .with_storage(Some("nowhere".to_string()));
    writer.add_sst(file_meta(region_id, "f1", 10));
    let part = writer.finish();

    let mut registry = StoreRegistry::new();
    registry.register("cold".to_string());
    let upload = Upload { parts: vec![part] };
    match plan_upload(&upload, &registry) {
        Err(StorageError::StoreNotFound { store }) => assert_eq!(store, "nowhere"),
        other => panic!("expected StoreNotFound, got {:?}", other),
    }
}

#[test]
fn test_upload_plans_one_transfer_per_file() {
    let region_id = RegionId { table_id: 1, region_number: 1 };
    let metadata = RegionMetadata { region_id };

    let mut w1 = UploadPartWriter::new(metadata.clone())
        .with_region_dir("r1".to_string())
        .with_storage(Some("cold".to_string()));
    w1.add_sst(file_meta(region_id, "a", 1));
    w1.add_sst(file_meta(region_id, "b", 2));
    let p1 = w1.finish();

    let mut w2 = UploadPartWriter::new(metadata).with_region_dir("r2".to_string());
    w2.add_sst(file_meta(region_id, "c", 3));
    let p2 = w2.finish();  // no storage: skipped

    let mut registry = StoreRegistry::new();
    registry.register("cold".to_string());
    let upload = Upload { parts: vec![p1, p2] };
    let transfers = plan_upload(&upload, &registry).unwrap();
    assert_eq!(transfers.len(), 2);
    assert_eq!(transfers[0].store, "cold");
    assert_eq!(transfers[0].path, "r1/a.parquet");
    assert_eq!(transfers[1].path, "r1/b.parquet");
}

#[test]
fn test_first_failure_aggregation() {
    let all_ok: Vec<Result<(), StorageError>> = vec![Ok(()), Ok(()), Ok(())];
    assert!(first_failure(all_ok).is_ok());

    let one_err: Vec<Result<(), StorageError>> = vec![
        Ok(()),
        Err(StorageError::BackendIo { operation: "write".to_string(), path: "p".to_string() }),
        Ok(()),
    ];
    match first_failure(one_err) {
        Err(StorageError::BackendIo { operation, path }) => {
            assert_eq!(operation, "write");
            assert_eq!(path, "p");
        }
        other => panic!("expected the failing transfer's error, got {:?}", other),
    }

    let empty: Vec<Result<(), StorageError>> = vec![];
    assert!(first_failure(empty).is_ok());
}

#[test]
fn test_upload_round_trip() {
    // stage three files locally, plan their promotion, and copy the bytes
    // along the plan: each file must arrive unchanged under the same path
    let region_id = RegionId { table_id: 3, region_number: 1 };
    let metadata = RegionMetadata { region_id };
    let mut writer = UploadPartWriter::new(metadata)
        .with_region_dir("region/3".to_string())
        .with_storage(Some("cold".to_string()));

    let mut local: HashMap<String, Vec<u8>> = HashMap::new();
    for (name, bytes) in [("a", vec![1u8, 2, 3]), ("b", vec![4u8]), ("c", vec![5u8, 6])] {
        writer.add_sst(file_meta(region_id, name, 0));
        local.insert(sst_file_path("region/3", name), bytes);
    }
    let part = writer.finish();

    let mut registry = StoreRegistry::new();
    registry.register("cold".to_string());
    let transfers = plan_upload(&Upload { parts: vec![part] }, &registry).unwrap();
    assert_eq!(transfers.len(), 3);

    let mut remote: HashMap<String, Vec<u8>> = HashMap::new();
    let mut results: Vec<Result<(), StorageError>> = Vec::new();
    for t in &transfers {
        assert_eq!(t.store, "cold");
        let bytes = local.get(&t.path).expect("planned path must be a staged file");
        remote.insert(t.path.clone(), bytes.clone());
        results.push(Ok(()));
    }
    assert!(first_failure(results).is_ok());

    assert_eq!(remote.len(), 3);
    for (path, bytes) in &local {
        assert_eq!(remote.get(path), Some(bytes));
    }
}

#[test]
fn test_upload_single_failed_transfer_fails_call() {
    // exactly one of the planned transfers fails: the aggregate result is
    // an error; nothing is said of the other transfers
    let results: Vec<Result<(), StorageError>> = vec![
        Ok(()),
        Ok(()),
        Err(StorageError::BackendIo { operation: "write".to_string(), path: "x".to_string() }),
        Ok(()),
    ];
    assert!(first_failure(results).is_err());
}
