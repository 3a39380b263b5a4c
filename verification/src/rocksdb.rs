//! Indexes that live in RocksDB.

use crate::backend::StoreConfig;
use vstd::prelude::*;
use vstd::string::StringExecFns;

pub mod hybrid;
pub mod params;
pub mod provider;
pub mod rerank;

pub use crate::neighbor_provider::NeighborProvider;
pub use crate::quant_vector_provider::QuantVectorProvider;
pub use crate::vector_provider::VectorProvider;

verus! {

/// Where a RocksDB store lives.
///
/// `P` is the type of a path and `D` that of a temporary directory. RocksDB has no in-memory
/// mode: a store in memory is one in a temporary directory, which the configuration keeps.
#[derive(Clone)]
pub struct Config<P, D> {
    pub(crate) path: P,
    pub(crate) is_memory: bool,
    pub(crate) temp_dir: Option<D>,
}

impl<P, D> Config<P, D> {
    /// The path of the store.
    pub closed spec fn location(self) -> P {
        self.path
    }

    /// Whether the store is in memory.
    pub closed spec fn in_mem(self) -> bool {
        self.is_memory
    }

    /// The temporary directory that is kept.
    pub closed spec fn kept_dir(self) -> Option<D> {
        self.temp_dir
    }

    /// The configuration of a store at `path`.
    pub fn new(path: P) -> (config: Self)
        ensures
            config.location() == path,
            !config.in_mem(),
            config.kept_dir() is None,
    {
        Config { path, is_memory: false, temp_dir: None }
    }

    /// The configuration of a store at `path` inside the temporary directory `dir`.
    pub fn in_memory(path: P, dir: D) -> (config: Self)
        ensures
            config.location() == path,
            config.in_mem(),
            config.kept_dir() == Some(dir),
    {
        Config { path, is_memory: true, temp_dir: Some(dir) }
    }

    pub fn is_memory_backend(&self) -> (is_memory: bool)
        ensures
            is_memory == self.in_mem(),
    {
        self.is_memory
    }

    pub fn path(&self) -> (path: &P)
        ensures
            *path == self.location(),
    {
        &self.path
    }
}

impl<P, D> StoreConfig for Config<P, D> {
    open spec fn backend() -> &'static str {
        "rocksdb"
    }

    fn backend_name() -> (name: &'static str) {
        "rocksdb"
    }
}

/// A store that could not be opened, with what RocksDB says about it.
#[derive(Debug, Clone)]
pub struct ConfigError(pub String);

impl ConfigError {
    /// The text of the error.
    pub fn message(&self) -> (s: String)
        ensures
            s@ == "RocksDB configuration error: "@ + self.0@,
    {
        "RocksDB configuration error: ".to_owned().concat(self.0.as_str())
    }
}

} // verus!
