use std::collections::BTreeMap;

use diskann::graph::AdjacencyList;
use diskann_vector::distance::Metric;
use kvgraph::error::IndexError;
use kvgraph::quant_vector_provider::{Compressed, Compression, PqShape, QuantVectorProvider};
use kvgraph::rocksdb;
use kvgraph::rocksdb::hybrid::{
    comparison, Comparison, EntryState, FillAction, Hybrid, HybridAccessor,
};
use kvgraph::rocksdb::params::{
    AsVectorDtype, GraphParams, RocksdbParams, RocksdbPaths, VectorDtype,
};
use kvgraph::rocksdb::provider::{
    ElementStatus, NewProvider, NoDeletes, NoStore, RocksdbProvider,
    RocksdbProviderParameters, TableBasedDeletes,
};
use kvgraph::rocksdb::rerank::Rerank;
use kvgraph::store::StoreOp;
use kvgraph::table_delete_provider::TableDeleteProviderAsync;
use kvgraph::words::{F16Bits, F32Bits};
use kvgraph::write_plan::{StoreName, StoreWrite, WritePlan};

type Config = rocksdb::Config<&'static str, ()>;

fn params(max_points: usize, num_start_points: usize, dim: usize) -> RocksdbProviderParameters<Config> {
    RocksdbProviderParameters {
        max_points,
        num_start_points,
        dim,
        metric: Metric::L2,
        max_fp_vecs_per_fill: None,
        max_degree: 64,
        vector_provider_config: rocksdb::Config::in_memory("full", ()),
        quant_vector_provider_config: rocksdb::Config::in_memory("quant", ()),
        neighbor_list_provider_config: rocksdb::Config::in_memory("neighbors", ()),
        graph_params: None,
    }
}

/// The stores of an index, in memory.
#[derive(Default)]
struct Stores {
    full: BTreeMap<Vec<u8>, Vec<u8>>,
    quant: BTreeMap<Vec<u8>, Vec<u8>>,
    neighbors: BTreeMap<Vec<u8>, Vec<u8>>,
}

impl Stores {
    fn write(&mut self, write: StoreWrite) {
        let store = match write.store {
            StoreName::FullVectors => &mut self.full,
            StoreName::QuantVectors => &mut self.quant,
            StoreName::Neighbors => &mut self.neighbors,
        };
        match write.op {
            StoreOp::Put { key, value } => {
                store.insert(key, value);
            }
            StoreOp::Delete { key } => {
                store.remove(&key);
            }
        }
    }

    fn run(&mut self, plan: WritePlan) -> Result<(), IndexError> {
        for write in plan.writes {
            self.write(write);
        }
        plan.outcome
    }
}

fn bits(v: &[f32]) -> Vec<F32Bits> {
    v.iter().map(|x| F32Bits(x.to_bits())).collect()
}

type Plain = RocksdbProvider<F32Bits, NoStore, TableDeleteProviderAsync, Config>;

#[test]
fn test_data_provider_and_delete_interface() {
    let mut provider = Plain::new_empty(params(10, 2, 5), NoStore, TableBasedDeletes);
    let mut stores = Stores::default();

    assert_eq!(provider.iter(), 0..(10 + 2));

    let iter = provider.iter();
    for i in iter.clone() {
        assert_eq!(provider.to_external_id(i), i);
        assert_eq!(provider.to_internal_id(&i), i);
        assert_eq!(provider.status_by_internal_id(i), ElementStatus::Valid);
        assert_eq!(provider.status_by_external_id(&i), ElementStatus::Valid);

        // Delete by external ID.
        //
        provider.delete(&i);
        assert_eq!(provider.status_by_internal_id(i), ElementStatus::Deleted);
        assert_eq!(provider.status_by_external_id(&i), ElementStatus::Deleted);
    }

    // Call `release` to "undelete" it ID.
    //
    for i in iter.clone() {
        // set adjacency list to non-empty before release
        let op = provider.neighbors().set_neighbors(i, &[1, 2]).unwrap();
        stores.write(StoreWrite { store: StoreName::Neighbors, op });
        stores.write(provider.release(i));
        let reset = provider.release_removed(i, Ok(())).unwrap();
        stores.write(reset);
        provider.release_reset(i, Ok(())).unwrap();
        assert_eq!(provider.status_by_internal_id(i), ElementStatus::Valid);
        assert_eq!(provider.status_by_external_id(&i), ElementStatus::Valid);
        // check that adjacency list was reset after release
        let mut neighbors = AdjacencyList::new();
        let reply = stores.neighbors.get(&provider.neighbors().key(i));
        provider
            .neighbors()
            .get_neighbors(reply.map(|v| v.as_slice()), &mut neighbors)
            .unwrap();
        assert!(neighbors.to_vec().is_empty());

        // Put it back to "deleted" to test `clear`.
        //
        provider.delete(&i);
    }

    provider.clear_delete_set();
    for i in iter.clone() {
        assert_eq!(provider.status_by_internal_id(i), ElementStatus::Valid);
        assert_eq!(provider.status_by_external_id(&i), ElementStatus::Valid);
    }

    // out-of-bound set-element fails.
    //
    assert!(provider.set_element(&100, &bits(&[1.0, 2.0, 3.0, 4.0])).outcome.is_err());
}

#[test]
fn test_empty_neighbor_list() {
    let num_points = 100u32;
    let provider = Plain::new_empty(params(num_points as usize, 2, 3), NoStore, TableBasedDeletes);
    let mut stores = Stores::default();
    let accessor = provider.neighbors();

    for i in 0..num_points {
        let vector = vec![i as f32, (i + 1) as f32, (i + 2) as f32];
        stores.run(provider.set_element(&i, &bits(&vector))).unwrap();

        // First attempt should fail as NotFound
        let mut out = AdjacencyList::new();
        let reply = stores.neighbors.get(&accessor.key(i)).map(|v| v.as_slice());
        assert!(accessor.get_neighbors(reply, &mut out).is_err());

        // After we set the empty neighbor list, our attempt should succeed
        let op = accessor.set_neighbors(i, &[]).unwrap();
        stores.write(StoreWrite { store: StoreName::Neighbors, op });
        let reply = stores.neighbors.get(&accessor.key(i)).map(|v| v.as_slice());
        accessor.get_neighbors(reply, &mut out).unwrap();

        assert!(out.is_empty());
    }

    for i in 0..num_points {
        let mut out = AdjacencyList::new();
        let neighbors = vec![10, 20, 30, 40, 50, 60, 70, 80, 90, 100];
        let op = accessor.set_neighbors(i, &neighbors).unwrap();
        stores.write(StoreWrite { store: StoreName::Neighbors, op });

        let reply = stores.neighbors.get(&accessor.key(i)).map(|v| v.as_slice());
        accessor.get_neighbors(reply, &mut out).unwrap();

        assert_eq!(&*out, &[10, 20, 30, 40, 50, 60, 70, 80, 90, 100]); // len = 10

        let op = accessor.set_neighbors(i, &[]).unwrap();
        stores.write(StoreWrite { store: StoreName::Neighbors, op });
        let reply = stores.neighbors.get(&accessor.key(i)).map(|v| v.as_slice());
        accessor.get_neighbors(reply, &mut out).unwrap();

        assert!(out.is_empty());
    }

    let mut out = AdjacencyList::from_iter_untrusted([10, 20, 30, 40, 50, 60, 70, 80, 90, 100]); // len = 10

    // Attempt to access non-existant vector's neighbor list should fail as NotFound
    let reply = stores.neighbors.get(&accessor.key(200)).map(|v| v.as_slice());
    assert!(accessor.get_neighbors(reply, &mut out).is_err());
    assert!(out.is_empty());
}

fn populate<Q, D>(
    new: NewProvider<F32Bits, Q, D, Config>,
) -> (Stores, usize, Result<RocksdbProvider<F32Bits, Q, D, Config>, IndexError>) {
    let mut stores = Stores::default();
    let mut k = 0;
    while let Some(write) = new.write(k) {
        stores.write(write);
        k += 1;
    }
    (stores, k, new.finish())
}

#[test]
fn a_new_index_is_populated() {
    let rows = [bits(&[1.0, 2.0]), bits(&[3.0, 4.0])];
    let rows: Vec<&[F32Bits]> = rows.iter().map(|r| r.as_slice()).collect();
    let new = RocksdbProvider::<F32Bits, NoStore, NoDeletes, Config>::new(
        params(3, 2, 2),
        &rows,
        &[],
        NoStore,
        NoDeletes,
    )
    .unwrap();
    let (stores, writes, provider) = populate(new);
    let provider = provider.unwrap();
    assert_eq!(writes, 2 * 2 + 3);
    assert_eq!(provider.starting_points().unwrap(), vec![3, 4]);
    assert_eq!(provider.num_start_points(), 2);
    assert_eq!(provider.max_points(), 3);
    assert_eq!(provider.dim(), 2);
    assert_eq!(provider.metric(), Metric::L2);
    assert_eq!(provider.max_degree(), 64);
    assert_eq!(provider.max_fp_vecs_per_fill, usize::MAX);
    for id in 0..5 {
        let reply = stores.neighbors.get(&provider.neighbors().key(id)).map(|v| v.as_slice());
        assert_eq!(provider.neighbors().decode_neighbors(reply).unwrap(), Vec::<u32>::new());
    }
    for (k, row) in rows.iter().enumerate() {
        let id = 3 + k;
        let reply = stores.full.get(&provider.full_vectors.key(id)).map(|v| v.as_slice());
        assert_eq!(provider.full_vectors.get_vector_sync(id, reply).unwrap(), row.to_vec());
    }
    assert_eq!(stores.full.len(), 2);
    assert!(stores.quant.is_empty());
}

#[test]
fn a_new_index_that_is_refused() {
    let row = bits(&[1.0, 2.0]);
    let refused = RocksdbProvider::<F32Bits, NoStore, NoDeletes, Config>::new(
        params(3, 2, 2),
        &[row.as_slice()],
        &[],
        NoStore,
        NoDeletes,
    );
    assert_eq!(
        refused.err().unwrap().message(),
        "start_points matrix has 1 rows, but params.num_start_points is 2"
    );
    // A start point of the wrong dimension: nothing is written for it.
    let new = RocksdbProvider::<F32Bits, NoStore, NoDeletes, Config>::new(
        params(3, 1, 5),
        &[row.as_slice()],
        &[],
        NoStore,
        NoDeletes,
    )
    .unwrap();
    let (_, writes, provider) = populate(new);
    assert_eq!(writes, 0);
    assert!(matches!(provider.err().unwrap(), IndexError::VectorDimension));
    // More vectors than there are ids.
    let new = RocksdbProvider::<F32Bits, NoStore, NoDeletes, Config>::new(
        params(u32::MAX as usize + 1, 1, 2),
        &[row.as_slice()],
        &[],
        NoStore,
        NoDeletes,
    )
    .unwrap();
    assert!(new.write(0).is_none());
    assert!(matches!(new.finish().err().unwrap(), IndexError::IdConversion { value: 4294967296 }));
}

type Quantized = RocksdbProvider<F32Bits, QuantVectorProvider<Config>, NoDeletes, Config>;

fn compressed(vf32_len: usize, code: &[u8]) -> Compression {
    Ok(Compressed { vf32_len, code: Ok(code.to_vec()) })
}

#[test]
fn a_new_quantized_index_is_populated() {
    let rows = [bits(&[1.0, 2.0]), bits(&[3.0, 4.0])];
    let rows: Vec<&[F32Bits]> = rows.iter().map(|r| r.as_slice()).collect();
    let shape = PqShape { dim: 2, num_chunks: 1 };
    let codes = [compressed(2, &[7]), compressed(2, &[8])];
    let new = Quantized::new(params(3, 2, 2), &rows, &codes, shape, NoDeletes).unwrap();
    let (stores, writes, provider) = populate(new);
    let provider = provider.unwrap();
    assert_eq!(writes, 3 * 2 + 3);
    for (id, code) in [(3, 7), (4, 8)] {
        let reply = stores.quant.get(&provider.quant_vectors.key(id)).map(|v| v.as_slice());
        assert_eq!(provider.quant_vectors.get_vector_sync(id, reply).unwrap(), vec![code]);
    }
    assert_eq!(stores.full.len(), 2);
    assert_eq!(stores.neighbors.len(), 5);

    // The second start point cannot be compressed: its vector is written, its list is not.
    let failed = Ok(Compressed { vf32_len: 2, code: Err("no pivots".to_string()) });
    let codes = [compressed(2, &[7]), failed];
    let new = Quantized::new(params(3, 2, 2), &rows, &codes, shape, NoDeletes).unwrap();
    let (stores, writes, provider) = populate(new);
    assert_eq!(writes, 3 + 1);
    assert_eq!(provider.err().unwrap().message(), "no pivots");
    assert_eq!(stores.full.len(), 2);
    assert_eq!(stores.neighbors.len(), 1);

    // A table for vectors of another dimension.
    let shape = PqShape { dim: 3, num_chunks: 1 };
    let codes = [compressed(2, &[]), compressed(2, &[])];
    let new = Quantized::new(params(3, 2, 2), &rows, &codes, shape, NoDeletes).unwrap();
    let (_, writes, provider) = populate(new);
    assert_eq!(writes, 1);
    assert!(matches!(provider.err().unwrap(), IndexError::F32Dimension));
}

#[test]
fn elements_are_set_in_both_stores() {
    let shape = PqShape { dim: 2, num_chunks: 2 };
    let provider = Quantized::new_empty(params(3, 1, 2), shape, NoDeletes);
    let mut stores = Stores::default();
    let element = bits(&[0.5, -0.5]);
    let plan = provider.set_element(&1, &element, &compressed(2, &[5, 6]));
    assert_eq!(plan.writes[0].store, StoreName::QuantVectors);
    assert_eq!(plan.writes[1].store, StoreName::FullVectors);
    stores.run(plan).unwrap();
    let reply = stores.full.get(&provider.full_vectors.key(1)).map(|v| v.as_slice());
    assert_eq!(provider.full_vectors.get_vector_sync(1, reply).unwrap(), element);
    assert_eq!(stores.quant.get(&provider.quant_vectors.key(1)).unwrap(), &vec![5, 6]);

    // The quantized vector is written before the full-precision one is refused.
    let plan = provider.set_element(&2, &bits(&[0.5]), &compressed(2, &[5, 6]));
    assert_eq!(plan.writes.len(), 1);
    assert!(matches!(plan.outcome, Err(IndexError::VectorDimension)));
    let plan = provider.set_element(&4, &element, &compressed(2, &[5, 6]));
    assert!(plan.writes.is_empty());
    assert!(matches!(plan.outcome, Err(IndexError::VectorIdOutOfRange)));
    let plan = provider.set_element(&2, &element, &Err("odd".to_string()));
    assert!(plan.writes.is_empty());
    assert_eq!(plan.outcome.err().unwrap().message(), "odd");
    let failed = Ok(Compressed { vf32_len: 2, code: Err("no pivots".to_string()) });
    let plan = provider.set_element(&2, &element, &failed);
    assert!(plan.writes.is_empty());
    assert_eq!(plan.outcome.err().unwrap().message(), "no pivots");
    // The id is looked at before the compression.
    let plan = provider.set_element(&4, &element, &failed);
    assert!(matches!(plan.outcome, Err(IndexError::VectorIdOutOfRange)));
}

#[test]
fn a_release_that_fails_leaves_the_mark() {
    let mut provider = Plain::new_empty(params(3, 1, 2), NoStore, TableBasedDeletes);
    provider.delete(&2);
    let refused = provider.release_removed(2, Err("io".to_string()));
    assert_eq!(refused.err().unwrap().message(), "rocksdb delete failed: io");
    assert_eq!(provider.status_by_internal_id(2), ElementStatus::Deleted);
    assert_eq!(
        provider.release_reset(2, Err("io".to_string())).err().unwrap().message(),
        "resetting neighbors for undeleted id 2: rocksdb put failed: io"
    );
    assert_eq!(
        provider.release(2),
        StoreWrite {
            store: StoreName::Neighbors,
            op: StoreOp::Delete { key: 2usize.to_ne_bytes().to_vec() },
        }
    );
}

#[test]
fn fills_mix_vectors() {
    let mut p = params(9, 1, 2);
    p.max_fp_vecs_per_fill = Some(2);
    let provider = Plain::new_empty(p, NoStore, TableBasedDeletes);
    let mut set: BTreeMap<u32, EntryState> = BTreeMap::new();
    set.insert(1, EntryState::Quant);
    set.insert(2, EntryState::Seeded);
    set.insert(3, EntryState::Quant);
    set.insert(4, EntryState::Full);
    let mut fill = HybridAccessor::new(&provider).fill(&[1, 2, 3, 4, 5, 1]);
    let mut actions = Vec::new();
    while let Some(id) = fill.current() {
        let entry = *set.get(&id).unwrap_or(&EntryState::Vacant);
        let action = fill.step(entry);
        match action {
            FillAction::Keep => {}
            FillAction::FetchFull => {
                set.insert(id, EntryState::Full);
            }
            FillAction::FetchQuant => {
                set.insert(id, EntryState::Quant);
            }
        }
        actions.push(action);
    }
    assert_eq!(
        actions,
        [
            FillAction::FetchFull,
            FillAction::Keep,
            FillAction::Keep,
            FillAction::Keep,
            FillAction::FetchQuant,
            FillAction::Keep,
        ]
    );
    assert_eq!(set[&1], EntryState::Full);
    assert_eq!(set[&2], EntryState::Seeded);
    assert_eq!(set[&5], EntryState::Quant);
    let mut all = HybridAccessor::new(&Plain::new_empty(params(9, 1, 2), NoStore, TableBasedDeletes))
        .fill(&[6]);
    assert_eq!(all.step(EntryState::Vacant), FillAction::FetchFull);
    assert_eq!(all.current(), None);
}

#[test]
fn comparisons() {
    let full: Hybrid<i32, u8> = Hybrid::Full(-1);
    let quant: Hybrid<i32, u8> = Hybrid::Quant(2);
    assert!(full.is_full());
    assert!(!quant.is_full());
    assert_eq!(comparison(full, Hybrid::Full(-3)), Comparison::Full(-1, -3));
    assert_eq!(comparison(quant, Hybrid::Quant(4)), Comparison::Quant(2, 4));
    assert_eq!(comparison(full, quant), Comparison::Mixed { full: -1, quant: 2 });
    assert_eq!(comparison(quant, full), Comparison::Mixed { full: -1, quant: 2 });
}

#[test]
fn reranking() {
    let mut deleted = TableDeleteProviderAsync::new(10);
    deleted.delete(4);
    deleted.delete(7);
    assert_eq!(Rerank.candidates(&deleted, &[9, 4, 2, 7, 0]), vec![9, 2, 0]);
    assert_eq!(Rerank::default().candidates(&NoDeletes, &[9, 4]), vec![9, 4]);
    let distances = [(9u32, 2.5f32), (2, -1.0), (0, 0.0), (5, f32::INFINITY), (6, -0.5)];
    let ranked =
        Rerank.rank(distances.iter().map(|(id, d)| (*id, F32Bits(d.to_bits()))).collect());
    let ids: Vec<u32> = ranked.iter().map(|r| r.0).collect();
    assert_eq!(ids, vec![2, 6, 0, 9, 5]);
    assert_eq!(f32::from_bits(ranked[3].1 .0), 2.5);
}

#[test]
fn saved_files() {
    assert_eq!(RocksdbPaths::params_json("/a/b"), "/a/b_params.json");
    assert_eq!(RocksdbPaths::vectors_bftree("/a/b"), "/a/b_vectors.bftree");
    assert_eq!(RocksdbPaths::neighbors_bftree("/a/b"), "/a/b_neighbors.bftree");
    assert_eq!(RocksdbPaths::quant_bftree("/a/b"), "/a/b_quant.bftree");
    assert_eq!(RocksdbPaths::delete_bin("/a/b"), "/a/b_delete.bin");
    assert_eq!(RocksdbPaths::pq_pivots_bin("/a/b"), "/a/b_pq_pivots.bin");
}

#[test]
fn saved_parameters() {
    let saved = RocksdbParams { bytes: 1, max_record_size: 2, leaf_page_size: 3 };
    let config: Config = saved.to_config("/x", false, None);
    assert_eq!(*config.path(), "/x");
    assert!(!config.is_memory_backend());
    let config = saved.to_config("/x", true, Some(("/tmp/y", ())));
    assert_eq!(*config.path(), "/tmp/y");
    assert!(config.is_memory_backend());
    assert_eq!(F32Bits::DATA_TYPE, VectorDtype::F32);
    assert_eq!(F16Bits::DATA_TYPE, VectorDtype::F16);
    assert_eq!(u8::DATA_TYPE, VectorDtype::U8);
    assert_eq!(i8::DATA_TYPE, VectorDtype::I8);
    let graph = GraphParams {
        l_build: 100,
        alpha: F32Bits(1.2f32.to_bits()),
        backedge_ratio: F32Bits(1.0f32.to_bits()),
        vector_dtype: VectorDtype::F16,
    };
    let mut p = params(9, 1, 2).clone();
    p.graph_params = Some(graph);
    let provider = Plain::new_empty(p, NoStore, TableBasedDeletes);
    assert_eq!(provider.graph_params, Some(graph));
}
