use vstd::prelude::*;

use crate::error::Error;

verus! {

/// A persistence capability for chain data. This build keeps everything
/// in memory, so both operations are empty successes.
pub trait Storage {
    fn put(&self) -> Result<(), Error>;

    fn get(&self) -> Result<(), Error>;
}

/// The in-memory store: persistence is a stub.
pub struct MemoryStore;

impl MemoryStore {
    pub fn new() -> MemoryStore {
        MemoryStore
    }
}

impl Storage for MemoryStore {
    fn put(&self) -> Result<(), Error> {
        Ok(())
    }

    fn get(&self) -> Result<(), Error> {
        Ok(())
    }
}

} // verus!
