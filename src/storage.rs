//! The object store that finished result files are moved to.
use vstd::prelude::*;

verus! {

/// An object store, implemented by each storage backend.
pub trait Storage {
    /// Connects to the store.
    fn init(&mut self) -> Result<(), String>;

    /// Moves the named file to the store.
    fn upload(&self, filename: String) -> Result<(), String>;
}

/// Moves result files to an object store.
pub struct StoragePlatform;

impl StoragePlatform {
    /// Connects `storage`, then moves `filename` to it; a failed connection
    /// stops before any upload.
    pub fn upload<T: Storage>(storage: T, filename: String) -> Result<(), String> {
        let mut storage = storage;
        storage.init()?;
        storage.upload(filename)
    }
}

} // verus!
