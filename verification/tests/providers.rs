use std::collections::BTreeMap;

use diskann::graph::AdjacencyList;
use diskann_vector::distance::Metric;
use kvgraph::error::{ErrorKind, IndexError};
use kvgraph::neighbor_provider::NeighborProvider;
use kvgraph::quant_vector_provider::{Compressed, Compression, PqShape, QuantVectorProvider};
use kvgraph::store::StoreOp;
use kvgraph::vector_provider::VectorProvider;
use kvgraph::words::{F16Bits, F32Bits};
use kvgraph::{redb, rocksdb};

type RocksConfig = rocksdb::Config<&'static str, ()>;
type RedbConfig = redb::Config<&'static str, ()>;

/// The bytes of `ids`, one after the other.
fn ids(ids: &[u32]) -> Vec<u8> {
    ids.iter().flat_map(|id| id.to_ne_bytes()).collect()
}

fn rocks() -> RocksConfig {
    rocksdb::Config::in_memory("temp", ())
}

fn red() -> RedbConfig {
    redb::Config::in_memory("temp", ())
}

/// A store in memory.
#[derive(Default)]
struct Memory(BTreeMap<Vec<u8>, Vec<u8>>);

impl Memory {
    fn apply(&mut self, op: StoreOp) {
        match op {
            StoreOp::Put { key, value } => {
                self.0.insert(key, value);
            }
            StoreOp::Delete { key } => {
                self.0.remove(&key);
            }
        }
    }

    fn read(&self, key: &[u8]) -> Option<&[u8]> {
        self.0.get(key).map(|v| v.as_slice())
    }
}

/// Neighbor lists in memory.
struct Lists {
    provider: NeighborProvider<RocksConfig>,
    memory: Memory,
}

impl Lists {
    fn new(max_degree: u32) -> Self {
        Lists {
            provider: NeighborProvider::new_with_config(max_degree, rocks()),
            memory: Memory::default(),
        }
    }

    fn set(&mut self, id: u32, neighbors: &[u32]) -> Result<(), IndexError> {
        let op = self.provider.set_neighbors(id, neighbors)?;
        self.memory.apply(op);
        Ok(())
    }

    fn append(&mut self, id: u32, new: &[u32]) -> Result<bool, IndexError> {
        let reply = self.memory.read(&self.provider.key(id));
        match self.provider.append_vector(id, reply, new)? {
            Some(op) => {
                self.memory.apply(op);
                Ok(true)
            }
            None => Ok(false),
        }
    }

    fn get(&self, id: u32, result: &mut AdjacencyList<u32>) -> Result<(), IndexError> {
        self.provider.get_neighbors(self.memory.read(&self.provider.key(id)), result)
    }
}

#[test]
fn test_neighbor_accessors() {
    let mut lists = Lists::new(6);

    let adj_list = vec![1, 2, 3];
    lists.set(1, &adj_list).unwrap();

    let mut result = AdjacencyList::with_capacity(10);
    lists.get(1, &mut result).unwrap();
    assert_eq!(&*adj_list, &*result);

    let mut new_neighbors = vec![9, 2, 9];
    assert!(lists.append(1, &new_neighbors).unwrap());

    lists.get(1, &mut result).unwrap();

    let mut adj_list_new = vec![1, 2, 3, 9];
    assert_eq!(&*adj_list_new, &*result);

    new_neighbors = vec![5, 6, 7];
    assert!(lists.append(1, &new_neighbors).unwrap());

    lists.get(1, &mut result).unwrap();

    adj_list_new = vec![1, 2, 3, 9, 5, 6];
    assert_eq!(&*adj_list_new, &*result);

    new_neighbors = vec![];
    lists.set(1, &new_neighbors).unwrap();
    lists.get(1, &mut result).unwrap();

    assert_eq!(&*new_neighbors, &*result);

    new_neighbors = vec![3, 4, 5];
    assert!(lists.append(1, &new_neighbors).unwrap());

    lists.get(1, &mut result).unwrap();

    assert_eq!(&*new_neighbors, &*result);

    let op = lists.provider.delete_vector(1);
    lists.memory.apply(op);

    assert!(lists.get(1, &mut result).is_err());

    new_neighbors = vec![];
    assert_eq!(&*new_neighbors, &*result);
}

#[test]
fn neighbor_provider_test_parallel_tree_traversal() {
    let mut lists = Lists::new(120);
    for i in 0..100 {
        let neighbor_list = vec![i as u32, (i + 1) as u32, (i + 2) as u32];
        lists.set(i as u32, &neighbor_list).unwrap();
    }

    let mut result = AdjacencyList::with_capacity(121);
    for i in 0..100 {
        lists.get(i as u32, &mut result).unwrap();

        let neighbor_list = vec![i as u32, (i + 1) as u32, (i + 2) as u32];
        assert_eq!(&*neighbor_list, &*result);
    }
}

#[test]
fn test_max_degree() {
    assert_eq!(NeighborProvider::new_with_config(6, rocks()).max_degree(), 6);
    assert_eq!(NeighborProvider::new_with_config(120, rocks()).max_degree(), 120);
    assert_eq!(NeighborProvider::new_with_config(1, rocks()).max_degree(), 1);
}

#[test]
fn test_parallel_neighbor_access() {
    let mut lists = Lists::new(120);
    for _ in 0..5 {
        for i in 0..5 {
            lists.set(i as u32, &[1, 2, 3, 4, 5]).unwrap();
        }

        let mut result = AdjacencyList::with_capacity(121);
        for i in 0..5 {
            lists.get(i as u32, &mut result).unwrap();

            assert_eq!(&[1, 2, 3, 4, 5], &*result);
        }
    }
}

#[test]
fn neighbor_lists_that_are_refused() {
    let mut lists = Lists::new(2);
    assert!(matches!(lists.set(0, &[1, 2, 3]), Err(IndexError::ListExceedsMaxDegree)));
    let mut result = AdjacencyList::from_iter_untrusted([4u32, 5]);
    let missing = lists.get(0, &mut result);
    assert_eq!(
        missing.err().unwrap().message(),
        "The rocksdb entry for the vector key is not found"
    );
    assert!(result.is_empty());
    assert!(matches!(
        lists.provider.decode_neighbors(Some(&[0, 0, 0])),
        Err(IndexError::ListShorterThanId)
    ));
    assert!(matches!(
        lists.provider.decode_neighbors(Some(&[0; 16])),
        Err(IndexError::ListLongerThanMaxDegree)
    ));
    assert!(matches!(
        lists.provider.decode_neighbors(Some(&[0; 9])),
        Err(IndexError::ListNotMultipleOfId)
    ));
    assert!(matches!(
        lists.provider.decode_neighbors(Some(&ids(&[7, 2]))),
        Err(IndexError::ListShorterThanDeclared)
    ));
    // An empty value is an empty list.
    assert_eq!(lists.provider.decode_neighbors(Some(&[])).unwrap(), Vec::<u32>::new());
}

#[test]
fn appended_lists_are_padded() {
    let mut lists = Lists::new(4);
    lists.set(3, &[7]).unwrap();
    // Nothing new: nothing is written.
    assert!(!lists.append(3, &[7]).unwrap());
    let key = lists.provider.key(3);
    assert_eq!(key, 3usize.to_ne_bytes());
    assert_eq!(lists.memory.read(&key).unwrap(), ids(&[7, 1]));
    assert!(lists.append(3, &[8]).unwrap());
    assert_eq!(lists.memory.read(&key).unwrap(), ids(&[7, 8, 0, 0, 2]));
    // A full list takes no more.
    assert!(lists.append(3, &[9, 10, 11]).unwrap());
    assert!(!lists.append(3, &[12]).unwrap());
    assert_eq!(
        lists.provider.decode_neighbors(lists.memory.read(&key)).unwrap(),
        vec![7, 8, 9, 10]
    );
}

fn bits(v: &[f32]) -> Vec<F32Bits> {
    v.iter().map(|x| F32Bits(x.to_bits())).collect()
}

fn floats(v: &[F32Bits]) -> Vec<f32> {
    v.iter().map(|x| f32::from_bits(x.0)).collect()
}

/// Full-precision vectors in memory.
struct Vectors {
    provider: VectorProvider<F32Bits, RedbConfig>,
    memory: Memory,
}

impl Vectors {
    fn new(num_points: usize, dim: usize, frozen_points: usize) -> Self {
        Vectors {
            provider: VectorProvider::new_with_config(num_points, dim, frozen_points, red()),
            memory: Memory::default(),
        }
    }

    fn set(&mut self, i: usize, v: &[f32]) -> Result<(), IndexError> {
        let op = self.provider.set_vector_sync(i, &bits(v))?;
        self.memory.apply(op);
        Ok(())
    }

    fn get(&self, i: usize) -> Result<Vec<f32>, IndexError> {
        let reply = self.memory.read(&self.provider.key(i));
        self.provider.get_vector_sync(i, reply).map(|v| floats(&v))
    }
}

#[test]
fn vector_provider_test_parallel_tree_traversal() {
    let num_points = 100;
    let mut vectors = Vectors::new(num_points, 3, 2);
    for i in 0..num_points {
        let vector = vec![i as f32, (i + 1) as f32, (i + 2) as f32];
        vectors.set(i, &vector).unwrap();
    }

    for i in 0..num_points {
        let vector = vectors.get(i).unwrap();
        assert_eq!(&vector, &vec![(i as f32), (i + 1) as f32, (i + 2) as f32]);
    }
}

#[test]
fn vector_provider_test_parallel_vector_access() {
    let num_points = 3;
    let frozen_points = 2;
    let dim = 3;
    let mut vectors = Vectors::new(num_points, dim, frozen_points);
    for _ in 0..5 {
        vectors.set(0, &[0.0, 0.0, 0.0]).unwrap();
        vectors.set(1, &[1.0, 1.0, 1.0]).unwrap();
        vectors.set(2, &[2.0, 2.0, 2.0]).unwrap();
        vectors.set(3, &[3.0, 3.0, 3.0]).unwrap();
        vectors.set(4, &[4.0, 4.0, 4.0]).unwrap();

        assert_eq!(vectors.get(4).unwrap(), &[4.0, 4.0, 4.0]);
        assert_eq!(vectors.get(3).unwrap(), &[3.0, 3.0, 3.0]);
        assert_eq!(vectors.get(2).unwrap(), &[2.0, 2.0, 2.0]);
        assert_eq!(vectors.get(1).unwrap(), &[1.0, 1.0, 1.0]);
        assert_eq!(vectors.get(0).unwrap(), &[0.0, 0.0, 0.0]);

        assert!(vectors.set(5, &[0.0, 0.0, 0.0]).is_err());
        assert!(vectors.set(2, &[0.0, 0.0]).is_err());
    }
}

#[test]
fn starting_points_follow_the_vectors() {
    let provider = VectorProvider::<u8, _>::new_with_config(7, 2, 3, red());
    assert_eq!(provider.starting_points().unwrap(), vec![7, 8, 9]);
    assert_eq!(provider.total(), 10);
    assert_eq!(provider.max_vectors(), 7);
    assert_eq!(provider.num_start_points(), 3);
    assert_eq!(provider.dim(), 2);
    assert!(provider.config().is_memory_backend());
    let last = VectorProvider::<u8, _>::new_with_config(u32::MAX as usize, 2, 1, red());
    assert_eq!(last.starting_points().unwrap(), vec![u32::MAX]);
    let beyond = VectorProvider::<u8, _>::new_with_config(u32::MAX as usize, 2, 2, red());
    assert_eq!(
        beyond.starting_points().err().unwrap().message(),
        "could not convert integer usize(4294967296) to a VectorId of type u32"
    );
}

#[test]
fn vectors_that_are_refused() {
    let mut vectors = Vectors::new(3, 2, 1);
    assert!(matches!(vectors.set(4, &[1.0, 2.0]), Err(IndexError::VectorIdOutOfRange)));
    assert!(matches!(vectors.set(4, &[1.0]), Err(IndexError::VectorDimension)));
    assert_eq!(
        vectors.get(2).err().unwrap().message(),
        "The redb entry for vector id 2 is not found"
    );
    let short = vectors.provider.get_vector_sync(1, Some(&[0; 7]));
    assert_eq!(
        short.err().unwrap().message(),
        "The redb entry for vector id 1 has size 7 instead of the expected size 8"
    );
    let mut buffer = bits(&[9.0, 9.0, 9.0]);
    let refused = vectors.provider.get_vector_into(0, Some(&[0; 8]), &mut buffer);
    assert_eq!(
        refused.err().unwrap().message(),
        "expected a buffer with dim 2, instead got 3"
    );
    assert_eq!(floats(&buffer), vec![9.0, 9.0, 9.0]);
    let mut buffer = bits(&[9.0, 9.0]);
    vectors.set(0, &[1.5, -2.5]).unwrap();
    let reply = vectors.memory.read(&vectors.provider.key(0));
    vectors.provider.get_vector_into(0, reply, &mut buffer).unwrap();
    assert_eq!(floats(&buffer), vec![1.5, -2.5]);
    // A failed read leaves the buffer as it was.
    assert!(vectors.provider.get_vector_into(1, None, &mut buffer).is_err());
    assert_eq!(floats(&buffer), vec![1.5, -2.5]);
}

#[test]
fn vectors_of_other_element_types() {
    let signed = VectorProvider::<i8, _>::new_with_config(2, 3, 0, rocks());
    assert_eq!(
        signed.set_vector_sync(1, &[-1, 0, 5]).unwrap(),
        StoreOp::Put { key: 1usize.to_ne_bytes().to_vec(), value: vec![255, 0, 5] }
    );
    assert_eq!(signed.get_vector_sync(1, Some(&[255, 0, 5])).unwrap(), vec![-1, 0, 5]);
    let stored = [0x3c00u16.to_ne_bytes(), 0x4000u16.to_ne_bytes()].concat();
    let halves = VectorProvider::<F16Bits, _>::new_with_config(2, 2, 0, rocks());
    assert_eq!(
        halves.set_vector_sync(0, &[F16Bits(0x3c00), F16Bits(0x4000)]).unwrap(),
        StoreOp::Put { key: 0usize.to_ne_bytes().to_vec(), value: stored.clone() }
    );
    assert_eq!(
        halves.get_vector_sync(0, Some(&stored)).unwrap(),
        vec![F16Bits(0x3c00), F16Bits(0x4000)]
    );
    let bytes = VectorProvider::<u8, _>::new_with_config(2, 2, 0, rocks());
    assert_eq!(bytes.get_vector_sync(0, Some(&[3, 4])).unwrap(), vec![3, 4]);
}

fn compressed(vf32_len: usize, code: &[u8]) -> Compression {
    Ok(Compressed { vf32_len, code: Ok(code.to_vec()) })
}

#[test]
fn the_order_of_refusals_of_quantized_vectors() {
    let shape = PqShape { dim: 4, num_chunks: 2 };
    let provider = QuantVectorProvider::new_with_config(Metric::L2, 3, 2, shape, red());
    let failed = |vf32_len| Ok(Compressed { vf32_len, code: Err("no pivots".to_string()) });
    // A vector that cannot be converted is refused before its id is looked at.
    let refused = provider.set_vector_sync(9, &Err("no floats".to_string()));
    assert!(matches!(refused, Err(IndexError::Conversion { .. })));
    assert_eq!(refused.err().unwrap().message(), "no floats");
    // One that cannot be compressed is refused after its id and its dimension.
    assert!(matches!(
        provider.set_vector_sync(5, &failed(3)),
        Err(IndexError::VectorIdOutOfRange)
    ));
    assert!(matches!(provider.set_vector_sync(4, &failed(3)), Err(IndexError::F32Dimension)));
    let refused = provider.set_vector_sync(4, &failed(4));
    assert!(matches!(refused, Err(IndexError::Compression { .. })));
    assert_eq!(refused.err().unwrap().message(), "no pivots");
    let op = provider.set_vector_sync(4, &compressed(4, &[1, 2])).unwrap();
    let mut memory = Memory::default();
    memory.apply(op);
    let reply = memory.read(&provider.key(4));
    assert_eq!(provider.get_vector_sync(4, reply).unwrap(), vec![1, 2]);
}

#[test]
fn common_errors() {
    let shape = PqShape { dim: 5, num_chunks: 1 };
    let provider = QuantVectorProvider::new_with_config(Metric::L2, 10, 1, shape, red());

    let result = provider.set_quant_vector(20, &[]).unwrap_err();
    assert_eq!(result.kind(), ErrorKind::IndexError);

    let result = provider.set_vector_sync(20, &compressed(0, &[])).unwrap_err();
    assert_eq!(result.kind(), ErrorKind::IndexError);

    let result = provider.set_quant_vector(0, &[]).unwrap_err();
    assert_eq!(result.kind(), ErrorKind::IndexError);
}

#[test]
fn quant_vector_provider_test_parallel_tree_traversal() {
    let shape = PqShape { dim: 2, num_chunks: 1 };
    let provider = QuantVectorProvider::new_with_config(Metric::L2, 10, 1, shape, red());
    let mut memory = Memory::default();
    for i in 0..11 {
        memory.apply(provider.set_vector_sync(i, &compressed(2, &[i as u8])).unwrap());
    }
    for i in 0..11 {
        let reply = memory.read(&provider.key(i));
        assert_eq!(provider.get_vector_sync(i, reply).unwrap(), vec![i as u8]);
    }
}

#[test]
fn quantized_vectors() {
    let shape = PqShape { dim: 4, num_chunks: 2 };
    let provider = QuantVectorProvider::new_with_config(Metric::Cosine, 3, 2, shape, red());
    assert_eq!(provider.total(), 5);
    assert_eq!(provider.full_dim(), 4);
    assert_eq!(provider.pq_chunks(), 2);
    assert_eq!(provider.metric(), Metric::Cosine);
    assert_eq!(*provider.config().path(), "temp");
    assert!(matches!(
        provider.set_vector_sync(5, &compressed(3, &[1, 2])),
        Err(IndexError::VectorIdOutOfRange)
    ));
    assert!(matches!(
        provider.set_vector_sync(4, &compressed(3, &[1, 2])),
        Err(IndexError::F32Dimension)
    ));
    assert!(matches!(provider.set_quant_vector(4, &[1]), Err(IndexError::VectorDimension)));
    assert_eq!(
        provider.set_quant_vector(4, &[8, 9]).unwrap(),
        StoreOp::Put { key: 4usize.to_ne_bytes().to_vec(), value: vec![8, 9] }
    );
    assert_eq!(provider.get_vector_sync(4, Some(&[8, 9])).unwrap(), vec![8, 9]);
    assert_eq!(
        provider.get_vector_sync(4, Some(&[8])).err().unwrap().message(),
        "The redb entry for vector id 4 has size 1 instead of the expected size 2"
    );
    let mut buffer = [0u8; 2];
    assert!(provider.get_vector_into(4, None, &mut buffer).is_err());
    assert_eq!(buffer, [0, 0]);
    provider.get_vector_into(4, Some(&[8, 9]), &mut buffer).unwrap();
    assert_eq!(buffer, [8, 9]);
}

#[test]
fn configurations() {
    let config: RocksConfig = rocksdb::Config::new("/data");
    assert!(!config.is_memory_backend());
    assert_eq!(*config.path(), "/data");
    assert!(rocks().is_memory_backend());
    assert_eq!(
        rocksdb::ConfigError("x".to_string()).message(),
        "RocksDB configuration error: x"
    );
    let config: RedbConfig = redb::Config::new("/data/file");
    assert!(!config.is_memory_backend());
    assert_eq!(*config.path(), "/data/file");
    assert_eq!(redb::memory_file_name(), "redb.db");
    assert_eq!(redb::ConfigError("y".to_string()).message(), "redb configuration error: y");
}
