//! What is saved beside the stores of an index, and where.

use crate::rocksdb::Config;
use crate::words::{F16Bits, F32Bits};
use vstd::prelude::*;
use vstd::string::StringExecFns;

verus! {

/// Stored parameters for reconstructing an index.
///
/// RocksDB has no use for these numbers. They are kept so that the saved parameters have the
/// same fields whatever store the index is in.
#[derive(Clone, Copy, Debug, PartialEq, Eq, Structural)]
pub struct RocksdbParams {
    pub bytes: usize,
    pub max_record_size: usize,
    pub leaf_page_size: usize,
}

impl RocksdbParams {
    /// The configuration of a store at `path`, or of one in memory.
    ///
    /// A store in memory lies in a temporary directory: `temp` is its path and its handle.
    pub fn to_config<P, D>(&self, path: P, is_memory: bool, temp: Option<(P, D)>) -> (config: Config<
        P,
        D,
    >)
        requires
            is_memory ==> temp is Some,
        ensures
            config.in_mem() == is_memory,
            is_memory ==> (temp matches Some((temp_path, dir)) && config.location() == temp_path
                && config.kept_dir() == Some(dir)),
            !is_memory ==> config.location() == path && config.kept_dir() is None,
    {
        if is_memory {
            match temp {
                Some((temp_path, dir)) => Config::in_memory(temp_path, dir),
                None => Config::new(path),
            }
        } else {
            Config::new(path)
        }
    }
}

/// Stored parameters of the quantized vectors.
#[derive(Clone, Copy, Debug, PartialEq, Eq, Structural)]
pub struct QuantParams {
    pub num_pq_bytes: usize,
    pub max_fp_vecs_per_fill: usize,
    pub params_quant: RocksdbParams,
}

/// The element type of the full-precision vectors stored in the index.
#[derive(Clone, Copy, Debug, PartialEq, Eq, Structural)]
pub enum VectorDtype {
    F32,
    F16,
    U8,
    I8,
}

/// An element type of vectors.
pub trait AsVectorDtype {
    /// The name of the type in saved parameters.
    const DATA_TYPE: VectorDtype;
}

impl AsVectorDtype for F32Bits {
    const DATA_TYPE: VectorDtype = VectorDtype::F32;
}

impl AsVectorDtype for F16Bits {
    const DATA_TYPE: VectorDtype = VectorDtype::F16;
}

impl AsVectorDtype for i8 {
    const DATA_TYPE: VectorDtype = VectorDtype::I8;
}

impl AsVectorDtype for u8 {
    const DATA_TYPE: VectorDtype = VectorDtype::U8;
}

/// Graph configuration parameters persisted alongside the index.
#[derive(Clone, Copy, Debug, PartialEq, Eq, Structural)]
pub struct GraphParams {
    /// The search list size used during index construction: how many candidates are tracked in
    /// the search for the neighbors of a new vector.
    pub l_build: usize,
    /// How aggressively neighbors that are occluded by closer ones are pruned.
    pub alpha: F32Bits,
    /// How many reverse edges are added after pruning.
    pub backedge_ratio: F32Bits,
    /// The type of the elements of the stored vectors.
    pub vector_dtype: VectorDtype,
}

/// Stored parameters of an index.
#[derive(Clone, Debug)]
pub struct SavedParams {
    pub max_points: usize,
    /// The number of start points, which is not zero.
    pub frozen_points: usize,
    pub dim: usize,
    pub metric: String,
    pub max_degree: u32,
    pub prefix: String,
    pub params_vector: RocksdbParams,
    pub params_neighbor: RocksdbParams,
    pub quant_params: Option<QuantParams>,
    pub graph_params: Option<GraphParams>,
    /// Whether the index was in memory or on disk.
    pub is_memory: bool,
}

/// The paths of the files of an index, which all begin with one prefix.
pub struct RocksdbPaths;

impl RocksdbPaths {
    /// The path of the parameters.
    pub fn params_json(prefix: &str) -> (path: String)
        ensures
            path@ == prefix@ + "_params.json"@,
    {
        prefix.to_owned().concat("_params.json")
    }

    /// The path of the full-precision vectors.
    pub fn vectors_bftree(prefix: &str) -> (path: String)
        ensures
            path@ == prefix@ + "_vectors.bftree"@,
    {
        prefix.to_owned().concat("_vectors.bftree")
    }

    /// The path of the neighbor lists.
    pub fn neighbors_bftree(prefix: &str) -> (path: String)
        ensures
            path@ == prefix@ + "_neighbors.bftree"@,
    {
        prefix.to_owned().concat("_neighbors.bftree")
    }

    /// The path of the quantized vectors.
    pub fn quant_bftree(prefix: &str) -> (path: String)
        ensures
            path@ == prefix@ + "_quant.bftree"@,
    {
        prefix.to_owned().concat("_quant.bftree")
    }

    /// The path of the marks of deleted vectors.
    pub fn delete_bin(prefix: &str) -> (path: String)
        ensures
            path@ == prefix@ + "_delete.bin"@,
    {
        prefix.to_owned().concat("_delete.bin")
    }

    /// The path of the pivots of the product-quantization table.
    pub fn pq_pivots_bin(prefix: &str) -> (path: String)
        ensures
            path@ == prefix@ + "_pq_pivots.bin"@,
    {
        prefix.to_owned().concat("_pq_pivots.bin")
    }
}

/// The files of an index are different files.
pub proof fn law_paths_are_distinct(prefix: Seq<char>, i: int, j: int)
    requires
        0 <= i < j < file_endings().len(),
    ensures
        prefix + file_endings()[i] != prefix + file_endings()[j],
{
    let a = file_endings()[i];
    let b = file_endings()[j];
    reveal_strlit("_params.json");
    reveal_strlit("_vectors.bftree");
    reveal_strlit("_neighbors.bftree");
    reveal_strlit("_quant.bftree");
    reveal_strlit("_delete.bin");
    reveal_strlit("_pq_pivots.bin");
    if prefix + a == prefix + b {
        assert((prefix + a).len() == (prefix + b).len());
        assert((prefix + a)[prefix.len() as int + 1] == a[1]);
        assert((prefix + b)[prefix.len() as int + 1] == b[1]);
    }
}

/// The endings of the paths of the files of an index.
pub open spec fn file_endings() -> Seq<Seq<char>> {
    seq![
        "_params.json"@,
        "_vectors.bftree"@,
        "_neighbors.bftree"@,
        "_quant.bftree"@,
        "_delete.bin"@,
        "_pq_pivots.bin"@,
    ]
}

} // verus!
