use brush::storage::{
    CloudProvider, DatasetStorage, FilesystemStorage, IndexedDbStorage, StorageEntry, StorageError,
    StorageType,
};

#[test]
fn storage_defaults() {
    assert_eq!(StorageType::default(), StorageType::Local);
    assert_eq!(CloudProvider::default(), CloudProvider::NoProvider);
    let c = StorageType::Cloud { url: "s3://b".to_string(), provider: CloudProvider::S3 };
    assert_ne!(c, StorageType::Local);
}

#[test]
fn dataset_path_is_joined() {
    let s = FilesystemStorage::new("/data/sets".to_string());
    let p = s.get_dataset_path("lego.zip");
    assert_eq!(std::path::Path::new(&p), std::path::Path::new("/data/sets/lego.zip"));
}

#[test]
fn dataset_info_record() {
    let s = FilesystemStorage::new("/data".to_string());
    let i = s.dataset_info("lego", 42, Some(100), None, 500);
    assert_eq!(i.name, "lego");
    assert_eq!(i.size_bytes, 42);
    assert_eq!(i.created_at, 100);
    assert_eq!(i.modified_at, 500);
    assert_eq!(i.storage_type, StorageType::Local);
    let i = s.dataset_info("old", 1, Some(-5), Some(7), 500);
    assert_eq!(i.created_at, 0);
    assert_eq!(i.modified_at, 7);
}

#[test]
fn total_counts_files_only() {
    let e = vec![
        StorageEntry { is_file: true, len: 10 },
        StorageEntry { is_file: false, len: 4096 },
        StorageEntry { is_file: true, len: 5 },
    ];
    assert_eq!(FilesystemStorage::total_storage_used(&e), 15);
    assert_eq!(FilesystemStorage::total_storage_used(&vec![]), 0);
}

#[test]
fn indexed_db_is_not_implemented() {
    let mut s = IndexedDbStorage::new().expect("creating always succeeds");
    assert_eq!(s.initialize(), Err(StorageError::NotImplemented));
    assert_eq!(s.save_dataset("a", b"x"), Err(StorageError::NotImplemented));
    assert!(matches!(s.load_dataset("a"), Err(StorageError::NotImplemented)));
    assert_eq!(s.delete_dataset("a"), Err(StorageError::NotImplemented));
    assert_eq!(s.get_total_storage_used(), Err(StorageError::NotImplemented));
    assert!(matches!(s.list_datasets(), Err(StorageError::NotImplemented)));
    assert_eq!(StorageError::NotImplemented.message(), "IndexedDB storage not implemented in this build");
}
