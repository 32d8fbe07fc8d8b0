//! Storage: where a module keeps what must outlast the process.

use vstd::prelude::*;

verus! {

/// A store of data.
pub trait StorageModule {
    /// Puts the data in the store.
    fn storage_data(&self) -> Result<(), std::fmt::Error>;

    /// Reads the data from the store, which keeps it.
    fn get_data(&self) -> Result<(), std::fmt::Error>;
}

} // verus!
