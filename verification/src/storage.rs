//! Dataset storage: what is known of a stored dataset, where the filesystem
//! store keeps one, how much space its files take, and the web store, which
//! this build does not provide.
//!
//! Reading, writing and listing files is left to the caller; this module
//! decides the paths, the records and the totals around them.

use vstd::prelude::*;
use vstd::string::StringExecFns;
use crate::paths::{join, joined};

verus! {

/// Cloud storage provider types.
#[derive(Debug, Clone, Copy, PartialEq, Eq, Structural)]
pub enum CloudProvider {
    /// No cloud provider.
    NoProvider,
    /// Amazon S3.
    S3,
    /// Google Cloud Storage.
    GCS,
    /// Custom provider.
    Custom,
}

impl Default for CloudProvider {
    /// No provider.
    fn default() -> (p: Self)
        ensures
            p == CloudProvider::NoProvider,
    {
        CloudProvider::NoProvider
    }
}

/// Storage type for datasets.
#[derive(Debug, Clone, PartialEq, Eq)]
pub enum StorageType {
    /// Local storage (filesystem or IndexedDB).
    Local,
    /// Cloud storage.
    Cloud {
        /// URL of the cloud storage.
        url: String,
        /// Provider type.
        provider: CloudProvider,
    },
}

impl Default for StorageType {
    /// Local storage.
    fn default() -> (s: Self)
        ensures
            s is Local,
    {
        StorageType::Local
    }
}

/// Information about a stored dataset.
#[derive(Debug, Clone)]
pub struct DatasetInfo {
    /// Name of the dataset.
    pub name: String,
    /// Size of the dataset in bytes.
    pub size_bytes: u64,
    /// Seconds since the Unix epoch when the dataset was created.
    pub created_at: u64,
    /// Seconds since the Unix epoch when the dataset was last modified.
    pub modified_at: u64,
    /// Storage type for the dataset.
    pub storage_type: StorageType,
}

/// Why a storage operation failed.
#[derive(Debug, Clone, Copy, PartialEq, Eq, Structural)]
pub enum StorageError {
    /// This build has no implementation of the store.
    NotImplemented,
}

impl StorageError {
    /// The message shown for the error.
    pub fn message(&self) -> (m: String)
        ensures
            m@ == "IndexedDB storage not implemented in this build"@,
    {
        String::from_str("IndexedDB storage not implemented in this build")
    }
}

/// Common interface of dataset stores.
pub trait DatasetStorage {
    /// Initializes the store.
    fn initialize(&mut self) -> Result<(), StorageError>;

    /// Saves a dataset with the given name and data.
    fn save_dataset(&mut self, name: &str, data: &[u8]) -> Result<(), StorageError>;

    /// Loads the dataset with the given name.
    fn load_dataset(&self, name: &str) -> Result<Vec<u8>, StorageError>;

    /// Deletes the dataset with the given name.
    fn delete_dataset(&mut self, name: &str) -> Result<(), StorageError>;

    /// The total storage used, in bytes.
    fn get_total_storage_used(&self) -> Result<u64, StorageError>;

    /// Names of all stored datasets.
    fn list_datasets(&self) -> Result<Vec<String>, StorageError>;
}

/// The browser's IndexedDB store. This build has none: every operation
/// reports [`StorageError::NotImplemented`].
#[derive(Debug)]
pub struct IndexedDbStorage {
    opened: bool,
}

impl IndexedDbStorage {
    /// Creates the store; this always succeeds.
    pub fn new() -> (r: Result<Self, StorageError>)
        ensures
            r is Ok,
    {
        Ok(IndexedDbStorage { opened: false })
    }
}

impl DatasetStorage for IndexedDbStorage {
    fn initialize(&mut self) -> (r: Result<(), StorageError>)
        ensures
            r == Err::<(), StorageError>(StorageError::NotImplemented),
            *final(self) == *old(self),
    {
        Err(StorageError::NotImplemented)
    }

    fn save_dataset(&mut self, name: &str, data: &[u8]) -> (r: Result<(), StorageError>)
        ensures
            r == Err::<(), StorageError>(StorageError::NotImplemented),
            *final(self) == *old(self),
    {
        Err(StorageError::NotImplemented)
    }

    fn load_dataset(&self, name: &str) -> (r: Result<Vec<u8>, StorageError>)
        ensures
            r matches Err(e) && e == StorageError::NotImplemented,
    {
        Err(StorageError::NotImplemented)
    }

    fn delete_dataset(&mut self, name: &str) -> (r: Result<(), StorageError>)
        ensures
            r == Err::<(), StorageError>(StorageError::NotImplemented),
            *final(self) == *old(self),
    {
        Err(StorageError::NotImplemented)
    }

    fn get_total_storage_used(&self) -> (r: Result<u64, StorageError>)
        ensures
            r == Err::<u64, StorageError>(StorageError::NotImplemented),
    {
        Err(StorageError::NotImplemented)
    }

    fn list_datasets(&self) -> (r: Result<Vec<String>, StorageError>)
        ensures
            r matches Err(e) && e == StorageError::NotImplemented,
    {
        Err(StorageError::NotImplemented)
    }
}

/// One entry of the dataset directory, as the size total sees it.
#[derive(Debug, Clone, Copy, PartialEq, Eq, Structural)]
pub struct StorageEntry {
    /// Whether the entry is a regular file.
    pub is_file: bool,
    /// The entry's length in bytes.
    pub len: u64,
}

/// The sum of the lengths of the regular files among `entries`.
pub open spec fn file_bytes(entries: Seq<StorageEntry>) -> nat
    decreases entries.len(),
{
    if entries.len() == 0 {
        0
    } else {
        let last = entries.last();
        file_bytes(entries.drop_last()) + if last.is_file { last.len as nat } else { 0 }
    }
}

/// A time in whole seconds since the Unix epoch (negative before it), as a
/// stored timestamp: the current time stands in for one the filesystem could
/// not give, and a time before the epoch counts as 0.
pub open spec fn timestamp_secs(t: Option<i64>, now: i64) -> u64 {
    let s = match t {
        Some(s) => s,
        None => now,
    };
    if s < 0 { 0 } else { s as u64 }
}

/// Filesystem-based storage for datasets.
#[derive(Debug, Clone)]
pub struct FilesystemStorage {
    dataset_dir: String,
}

impl FilesystemStorage {
    /// The directory the datasets are stored in.
    pub closed spec fn dir(&self) -> Seq<char> {
        self.dataset_dir@
    }

    /// Creates a filesystem storage with the given dataset directory.
    pub fn new(dataset_dir: String) -> (s: Self)
        ensures
            s.dir() == dataset_dir@,
    {
        FilesystemStorage { dataset_dir }
    }

    /// The path of the dataset with the given name: the name joined onto
    /// the dataset directory.
    pub fn get_dataset_path(&self, name: &str) -> (p: String)
        ensures
            p@ == joined(self.dir(), name@),
    {
        join(self.dataset_dir.as_str(), name)
    }

    /// The record of a dataset stored here, from its size and the times the
    /// filesystem gave for it (`None` where it gave none), `now` standing in
    /// for a missing time.
    pub fn dataset_info(
        &self,
        name: &str,
        size_bytes: u64,
        created: Option<i64>,
        modified: Option<i64>,
        now: i64,
    ) -> (info: DatasetInfo)
        ensures
            info.name@ == name@,
            info.size_bytes == size_bytes,
            info.created_at == timestamp_secs(created, now),
            info.modified_at == timestamp_secs(modified, now),
            info.storage_type is Local,
    {
        DatasetInfo {
            name: name.to_owned(),
            size_bytes,
            created_at: secs_since_epoch(created, now),
            modified_at: secs_since_epoch(modified, now),
            storage_type: StorageType::Local,
        }
    }

    /// The total size of the regular files in the dataset directory, given
    /// its entries.
    pub fn total_storage_used(entries: &Vec<StorageEntry>) -> (total: u64)
        requires
            file_bytes(entries@) <= u64::MAX,
        ensures
            total == file_bytes(entries@),
    {
        let mut total: u64 = 0;
        let mut i: usize = 0;
        while i < entries.len()
            invariant
                i <= entries.len(),
                total == file_bytes(entries@.take(i as int)),
                file_bytes(entries@) <= u64::MAX,
            decreases entries.len() - i,
        {
            proof {
                assert(entries@.take(i as int + 1).drop_last() =~= entries@.take(i as int));
                lemma_file_bytes_prefix(entries@, i as int + 1);
            }
            if entries[i].is_file {
                total = total + entries[i].len;
            }
            i = i + 1;
        }
        assert(entries@.take(i as int) =~= entries@);
        total
    }
}

fn secs_since_epoch(t: Option<i64>, now: i64) -> (r: u64)
    ensures
        r == timestamp_secs(t, now),
{
    let s = match t {
        Some(s) => s,
        None => now,
    };
    if s < 0 {
        0
    } else {
        s as u64
    }
}

/// The files of a prefix take no more space than those of the whole list.
proof fn lemma_file_bytes_prefix(entries: Seq<StorageEntry>, n: int)
    requires
        0 <= n <= entries.len(),
    ensures
        file_bytes(entries.take(n)) <= file_bytes(entries),
    decreases entries.len(),
{
    if n < entries.len() {
        assert(entries.drop_last().take(n) =~= entries.take(n));
        lemma_file_bytes_prefix(entries.drop_last(), n);
    } else {
        assert(entries.take(n) =~= entries);
    }
}

} // verus!
