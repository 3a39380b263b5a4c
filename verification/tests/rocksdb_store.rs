use std::collections::BTreeMap;

use kvgraph::kv_range::{is_key_before, KeyRange, RangeBound};
use kvgraph::rocksdb_store::{
    store_answer, RangeItem, RocksdbStore, RocksdbStoreError, ScanItem, ScanStart,
};
use kvgraph::store::StoreOp;

/// A database in memory that does what it is told, as RocksDB would.
struct Memory {
    store: RocksdbStore<()>,
    entries: BTreeMap<Vec<u8>, Vec<u8>>,
}

impl Memory {
    fn temp() -> Result<Self, RocksdbStoreError> {
        let request = RocksdbStore::<()>::open("memory");
        assert!(request.create_if_missing);
        assert_eq!(request.path, "memory");
        let store = RocksdbStore::open_with_options(Ok(()))?;
        Ok(Memory { store, entries: BTreeMap::new() })
    }

    fn apply(&mut self, op: StoreOp) {
        match op {
            StoreOp::Put { key, value } => {
                self.entries.insert(key, value);
            }
            StoreOp::Delete { key } => {
                self.entries.remove(&key);
            }
        }
    }

    fn set(&mut self, key: &[u8], value: &[u8]) -> Result<(), RocksdbStoreError> {
        let op = self.store.set(key, value);
        self.apply(op);
        store_answer(Ok(()))
    }

    fn del(&mut self, key: &[u8]) -> Result<(), RocksdbStoreError> {
        let op = self.store.del(key);
        self.apply(op);
        store_answer(Ok(()))
    }

    fn get(&self, key: &[u8]) -> Result<Option<Vec<u8>>, RocksdbStoreError> {
        self.store.get(Ok(self.entries.get(key).cloned()))
    }

    fn batch_set(&mut self, entries: &[(&[u8], &[u8])]) -> Result<(), RocksdbStoreError> {
        for op in self.store.batch_set(entries) {
            self.apply(op);
        }
        store_answer(Ok(()))
    }

    fn batch_del(&mut self, keys: &[&[u8]]) -> Result<(), RocksdbStoreError> {
        for op in self.store.batch_del(keys) {
            self.apply(op);
        }
        store_answer(Ok(()))
    }

    fn batch_get(&self, keys: &[&[u8]]) -> Result<Vec<Option<Vec<u8>>>, RocksdbStoreError> {
        self.store.batch_get(keys.iter().map(|k| Ok(self.entries.get(*k).cloned())).collect())
    }

    fn range(&self, range: KeyRange) -> Result<Vec<(Vec<u8>, Vec<u8>)>, RocksdbStoreError> {
        let scan = self.store.range(range);
        let first = match scan.start() {
            ScanStart::First => Vec::new(),
            ScanStart::From(key) => key.clone(),
        };
        let mut scanned: Vec<ScanItem> = Vec::new();
        for (key, value) in self.entries.range(first..) {
            if scan.lower_bound().as_ref().map_or(false, |l| key < l) {
                continue;
            }
            if scan.upper_bound().as_ref().map_or(false, |u| key >= u) {
                break;
            }
            scanned.push(Ok((key.clone(), value.clone())));
        }
        scan.items(scanned).into_iter().collect()
    }
}

fn included(key: &[u8]) -> RangeBound {
    RangeBound::Included(key.to_vec())
}

fn excluded(key: &[u8]) -> RangeBound {
    RangeBound::Excluded(key.to_vec())
}

#[test]
fn small_key_small_value() {
    let mut store = Memory::temp().unwrap();
    store.set(b"key", b"v").unwrap();
    assert_eq!(store.get(b"key").unwrap(), Some(b"v".to_vec()));
}

#[test]
fn larger_key_larger_value() {
    let mut store = Memory::temp().unwrap();
    let key = &[b'k'; 1000];
    let value = &[b'v'; 1000];
    store.set(key, value).unwrap();
    assert_eq!(store.get(key).unwrap(), Some(value.to_vec()));
}

#[test]
fn test_basic_operations() {
    let mut store = Memory::temp().unwrap();

    store.set(b"key1", b"value1").unwrap();
    assert_eq!(store.get(b"key1").unwrap(), Some(b"value1".to_vec()));

    store.set(b"key1", b"value2").unwrap();
    assert_eq!(store.get(b"key1").unwrap(), Some(b"value2".to_vec()));

    store.del(b"key1").unwrap();
    assert_eq!(store.get(b"key1").unwrap(), None);

    assert_eq!(store.get(b"missing").unwrap(), None);
}

#[test]
fn test_batch_operations_atomic() {
    let mut store = Memory::temp().unwrap();

    store
        .batch_set(&[
            (b"k1".as_slice(), b"v1".as_slice()),
            (b"k2".as_slice(), b"v2".as_slice()),
            (b"k3".as_slice(), b"v3".as_slice()),
        ])
        .unwrap();

    let results = store.batch_get(&[b"k1", b"k2", b"k3", b"k4"]).unwrap();
    assert_eq!(results[0], Some(b"v1".to_vec()));
    assert_eq!(results[1], Some(b"v2".to_vec()));
    assert_eq!(results[2], Some(b"v3".to_vec()));
    assert_eq!(results[3], None);

    store.batch_del(&[b"k1", b"k3"]).unwrap();
    assert_eq!(store.get(b"k1").unwrap(), None);
    assert_eq!(store.get(b"k2").unwrap(), Some(b"v2".to_vec()));
    assert_eq!(store.get(b"k3").unwrap(), None);
}

#[test]
fn test_range_scan_exclusive() {
    let mut store = Memory::temp().unwrap();
    for (k, v) in [
        (b"a".as_slice(), b"1".as_slice()),
        (b"b", b"2"),
        (b"c", b"3"),
        (b"d", b"4"),
        (b"e", b"5"),
    ] {
        store.set(k, v).unwrap();
    }

    let results = store.range(KeyRange { start: included(b"b"), end: excluded(b"d") }).unwrap();

    assert_eq!(results.len(), 2);
    assert_eq!(results[0].0, b"b");
    assert_eq!(results[1].0, b"c");
}

#[test]
fn test_range_scan_inclusive() {
    let mut store = Memory::temp().unwrap();
    for (k, v) in [
        (b"a".as_slice(), b"1".as_slice()),
        (b"b", b"2"),
        (b"c", b"3"),
        (b"d", b"4"),
    ] {
        store.set(k, v).unwrap();
    }

    let results = store.range(KeyRange { start: included(b"b"), end: included(b"d") }).unwrap();

    assert_eq!(results.len(), 3);
    assert_eq!(results[0].0, b"b");
    assert_eq!(results[2].0, b"d");
}

#[test]
fn test_full_scan() {
    let mut store = Memory::temp().unwrap();
    store.set(b"a", b"1").unwrap();
    store.set(b"b", b"2").unwrap();
    store.set(b"c", b"3").unwrap();

    let results = store
        .range(KeyRange { start: RangeBound::Unbounded, end: RangeBound::Unbounded })
        .unwrap();

    assert_eq!(results.len(), 3);
}

#[test]
fn test_idempotent_delete() {
    let mut store = Memory::temp().unwrap();
    store.set(b"key", b"value").unwrap();
    store.del(b"key").unwrap();
    store.del(b"key").unwrap();
    assert_eq!(store.get(b"key").unwrap(), None);
}

#[test]
fn excluded_start_is_left_out() {
    let mut store = Memory::temp().unwrap();
    for k in [b"a", b"b", b"c"] {
        store.set(k, b"x").unwrap();
    }
    let results = store.range(KeyRange { start: excluded(b"a"), end: included(b"c") }).unwrap();
    assert_eq!(results, vec![(b"b".to_vec(), b"x".to_vec()), (b"c".to_vec(), b"x".to_vec())]);
}

#[test]
fn bounds_of_scans() {
    let store = RocksdbStore::open_with_options(Ok(7u8)).unwrap();
    assert_eq!(*store.db(), 7);
    let scan = store.range(KeyRange { start: excluded(b"b"), end: included(b"d") });
    assert_eq!(scan.lower_bound(), &Some(b"b".to_vec()));
    assert_eq!(scan.upper_bound(), &None);
    assert_eq!(scan.start(), &ScanStart::From(b"b".to_vec()));
    let scan = store.range(KeyRange { start: RangeBound::Unbounded, end: excluded(b"d") });
    assert_eq!(scan.lower_bound(), &None);
    assert_eq!(scan.upper_bound(), &Some(b"d".to_vec()));
    assert_eq!(scan.start(), &ScanStart::First);
}

#[test]
fn order_of_keys() {
    assert!(is_key_before(b"", b"a"));
    assert!(is_key_before(b"a", b"ab"));
    assert!(is_key_before(b"ab", b"b"));
    assert!(is_key_before(&[1, 2], &[1, 200]));
    assert!(!is_key_before(b"a", b"a"));
    assert!(!is_key_before(b"b", b"ab"));
    let range = KeyRange { start: included(b"ab"), end: excluded(b"ac") };
    assert!(range.contains(b"ab"));
    assert!(range.contains(b"abz"));
    assert!(!range.contains(b"ac"));
    assert!(!range.contains(b"a"));
}

#[test]
fn later_entries_of_a_batch_win() {
    let mut store = Memory::temp().unwrap();
    store.set(b"z", b"0").unwrap();
    store
        .batch_set(&[
            (b"k".as_slice(), b"1".as_slice()),
            (b"l".as_slice(), b"2".as_slice()),
            (b"k".as_slice(), b"3".as_slice()),
        ])
        .unwrap();
    assert_eq!(store.get(b"k").unwrap(), Some(b"3".to_vec()));
    assert_eq!(store.get(b"l").unwrap(), Some(b"2".to_vec()));
    assert_eq!(store.get(b"z").unwrap(), Some(b"0".to_vec()));
}

#[test]
fn failures_of_the_database_are_reported() {
    let failed = RocksdbStore::<()>::open_with_options(Err("locked".to_string()));
    assert_eq!(failed.err().unwrap().message(), "RocksDB store error: locked");

    let store = RocksdbStore::open_with_options(Ok(())).unwrap();
    let error = store.get(Err("gone".to_string())).err().unwrap();
    assert_eq!(error.0, "gone");

    let answers = vec![
        Ok(Some(vec![1])),
        Err("first".to_string()),
        Ok(None),
        Err("second".to_string()),
    ];
    assert_eq!(store.batch_get(answers).err().unwrap().0, "first");

    let scan = store.range(KeyRange { start: included(b"m"), end: RangeBound::Unbounded });
    let items: Vec<RangeItem> = scan.items(vec![
        Ok((b"a".to_vec(), vec![])),
        Err("broken".to_string()),
        Ok((b"n".to_vec(), vec![9])),
    ]);
    assert_eq!(items.len(), 2);
    assert_eq!(items[0].as_ref().err().unwrap().0, "broken");
    assert_eq!(items[1].as_ref().ok().unwrap().0, b"n");
    assert!(scan.item(Ok((b"l".to_vec(), vec![]))).is_none());
}

#[test]
fn errors_from_text() {
    assert_eq!(RocksdbStoreError::from("a").0, "a");
    assert_eq!(RocksdbStoreError::from("b".to_string()).message(), "RocksDB store error: b");
}
