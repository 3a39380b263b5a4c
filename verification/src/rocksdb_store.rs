//! A key-value store of bytes on RocksDB.
//!
//! The store decides which writes make up a request, which part of the keys a range request
//! scans, and which of the scanned entries belong to the range.

use crate::kv_range;
use crate::kv_range::{KeyRange, RangeBound};
use crate::store;
use crate::store::StoreOp;
use vstd::prelude::*;
use vstd::slice::slice_to_vec;
use vstd::std_specs::convert::FromSpecImpl;
use vstd::string::StringExecFns;

verus! {

/// A failure of the store, with what RocksDB says about it.
#[derive(Debug)]
pub struct RocksdbStoreError(pub String);

impl RocksdbStoreError {
    /// The text of the error.
    pub fn message(&self) -> (s: String)
        ensures
            s@ == "RocksDB store error: "@ + self.0@,
    {
        "RocksDB store error: ".to_owned().concat(self.0.as_str())
    }
}

impl From<String> for RocksdbStoreError {
    fn from(s: String) -> (e: Self) {
        RocksdbStoreError(s)
    }
}

impl FromSpecImpl<String> for RocksdbStoreError {
    open spec fn obeys_from_spec() -> bool {
        true
    }

    open spec fn from_spec(s: String) -> Self {
        RocksdbStoreError(s)
    }
}

impl From<&str> for RocksdbStoreError {
    fn from(s: &str) -> (e: Self)
        ensures
            e.0@ == s@,
    {
        RocksdbStoreError(s.to_owned())
    }
}

impl FromSpecImpl<&str> for RocksdbStoreError {
    open spec fn obeys_from_spec() -> bool {
        false
    }

    open spec fn from_spec(s: &str) -> Self {
        arbitrary()
    }
}

/// A database that is to be opened at `path`.
#[derive(Clone, Copy, Debug)]
pub struct OpenRequest<P> {
    pub path: P,
    /// Whether a missing database is created.
    pub create_if_missing: bool,
}

/// Where a scan begins.
#[derive(Clone, Debug, PartialEq, Eq)]
pub enum ScanStart {
    /// At the first key.
    First,
    /// At the first key that is not before this one.
    From(Vec<u8>),
}

/// What a scan for a range of keys visits.
pub struct ScanBounds {
    pub lower: Option<Seq<u8>>,
    pub upper: Option<Seq<u8>>,
    pub first: Option<Seq<u8>>,
}

impl ScanBounds {
    /// Whether the scan visits `key`. The lower bound is inclusive and the upper one is not.
    pub open spec fn visits(self, key: Seq<u8>) -> bool {
        &&& self.lower matches Some(l) ==> !kv_range::key_before(key, l)
        &&& self.upper matches Some(u) ==> kv_range::key_before(key, u)
        &&& self.first matches Some(f) ==> !kv_range::key_before(key, f)
    }
}

/// What is scanned for `range`: nothing before its start, and nothing from an excluded end on.
pub open spec fn scan_bounds(range: KeyRange) -> ScanBounds {
    let start = match range.start {
        RangeBound::Unbounded => None,
        RangeBound::Included(s) => Some(s@),
        RangeBound::Excluded(s) => Some(s@),
    };
    let upper = match range.end {
        RangeBound::Excluded(e) => Some(e@),
        _ => None,
    };
    ScanBounds { lower: start, upper, first: start }
}

/// The entry of a store, or the failure to read it, that a scan comes upon.
pub type ScanItem = Result<(Vec<u8>, Vec<u8>), String>;

/// The entry of a range, or the failure to read it.
pub type RangeItem = Result<(Vec<u8>, Vec<u8>), RocksdbStoreError>;

/// Whether what a scan comes upon is handed out for `range`. Failures always are.
pub open spec fn is_handed_out(item: ScanItem, range: KeyRange) -> bool {
    match item {
        Ok((key, value)) => range.holds(key@),
        Err(text) => true,
    }
}

/// How what a scan comes upon is handed out.
pub open spec fn handed_out(item: ScanItem) -> RangeItem {
    match item {
        Ok(entry) => Ok(entry),
        Err(text) => Err(RocksdbStoreError(text)),
    }
}

/// What a scan hands out for `range`.
pub open spec fn range_items(items: Seq<ScanItem>, range: KeyRange) -> Seq<RangeItem> {
    items.filter(|item: ScanItem| is_handed_out(item, range)).map_values(
        |item: ScanItem| handed_out(item),
    )
}

/// A scan for a range of keys.
#[derive(Clone, Debug)]
pub struct RangeScan {
    key_range: KeyRange,
    lower: Option<Vec<u8>>,
    upper: Option<Vec<u8>>,
    start: ScanStart,
}

impl View for RangeScan {
    type V = ScanBounds;

    closed spec fn view(&self) -> ScanBounds {
        ScanBounds {
            lower: bytes_of(self.lower),
            upper: bytes_of(self.upper),
            first: match self.start {
                ScanStart::First => None,
                ScanStart::From(key) => Some(key@),
            },
        }
    }
}

/// An optional key, as plain bytes.
pub open spec fn bytes_of(key: Option<Vec<u8>>) -> Option<Seq<u8>> {
    match key {
        Some(bytes) => Some(bytes@),
        None => None,
    }
}

impl RangeScan {
    /// The range that the scan is for.
    pub closed spec fn range(self) -> KeyRange {
        self.key_range
    }

    /// The scan for `key_range`.
    ///
    /// Its bounds are conservative: which of the entries it comes upon are in the range is
    /// decided by `item`.
    pub fn new(key_range: KeyRange) -> (scan: Self)
        ensures
            scan.range() == key_range,
            scan@ == scan_bounds(key_range),
    {
        let mut lower: Option<Vec<u8>> = None;
        let mut upper: Option<Vec<u8>> = None;
        let mut start = ScanStart::First;
        match &key_range.start {
            RangeBound::Unbounded => {},
            RangeBound::Included(s) | RangeBound::Excluded(s) => {
                lower = Some(slice_to_vec(s.as_slice()));
                start = ScanStart::From(slice_to_vec(s.as_slice()));
            },
        }
        if let RangeBound::Excluded(e) = &key_range.end {
            upper = Some(slice_to_vec(e.as_slice()));
        }
        RangeScan { key_range, lower, upper, start }
    }

    /// The smallest key that the scan may visit.
    pub fn lower_bound(&self) -> (bound: &Option<Vec<u8>>)
        ensures
            bytes_of(*bound) == self@.lower,
    {
        &self.lower
    }

    /// The first key that the scan may not visit any more.
    pub fn upper_bound(&self) -> (bound: &Option<Vec<u8>>)
        ensures
            bytes_of(*bound) == self@.upper,
    {
        &self.upper
    }

    /// Where the scan begins.
    pub fn start(&self) -> (start: &ScanStart)
        ensures
            match *start {
                ScanStart::First => self@.first is None,
                ScanStart::From(key) => self@.first == Some(key@),
            },
    {
        &self.start
    }

    /// What is handed out for what the scan comes upon, if anything is.
    pub fn item(&self, item: ScanItem) -> (handed: Option<RangeItem>)
        ensures
            match handed {
                Some(h) => is_handed_out(item, self.range()) && h == handed_out(item),
                None => !is_handed_out(item, self.range()),
            },
    {
        match item {
            Ok((key, value)) => {
                if self.key_range.contains(key.as_slice()) {
                    Some(Ok((key, value)))
                } else {
                    None
                }
            },
            Err(text) => Some(Err(RocksdbStoreError::from(text))),
        }
    }

    /// All that is handed out for what the scan comes upon, in order.
    pub fn items(&self, scanned: Vec<ScanItem>) -> (handed: Vec<RangeItem>)
        ensures
            handed@ == range_items(scanned@, self.range()),
    {
        let ghost all = scanned@;
        let ghost range = self.range();
        let mut handed: Vec<RangeItem> = Vec::new();
        proof {
            reveal(Seq::filter);
            assert(all.take(0).filter(|item: ScanItem| is_handed_out(item, range)) =~= seq![]);
            assert(range_items(all.take(0), range) =~= seq![]);
        }
        for item in it: scanned
            invariant
                it.seq() == all,
                range == self.range(),
                handed@ == range_items(all.take(it.index() as int), range),
        {
            proof {
                lemma_range_items_push(all.take(it.index() as int), all[it.index() as int], range);
                assert(all.take(it.index() as int).push(all[it.index() as int]) =~= all.take(
                    it.index() + 1,
                ));
            }
            if let Some(h) = self.item(item) {
                handed.push(h);
            }
        }
        assert(all.take(all.len() as int) =~= all);
        handed
    }
}

/// What is handed out for one item more.
proof fn lemma_range_items_push(items: Seq<ScanItem>, item: ScanItem, range: KeyRange)
    ensures
        range_items(items.push(item), range) == (if is_handed_out(item, range) {
            range_items(items, range).push(handed_out(item))
        } else {
            range_items(items, range)
        }),
{
    reveal(Seq::filter);
    let pred = |i: ScanItem| is_handed_out(i, range);
    assert(items.push(item).drop_last() =~= items);
    assert(items.push(item).last() == item);
    assert(items.push(item).filter(pred) == if pred(item) {
        items.filter(pred).push(item)
    } else {
        items.filter(pred)
    });
    if is_handed_out(item, range) {
        assert(range_items(items.push(item), range) =~= range_items(items, range).push(
            handed_out(item),
        ));
    }
}

/// A persistent key-value store.
///
/// `D` is the type of the handle of an open database.
#[derive(Clone, Copy, Debug)]
pub struct RocksdbStore<D> {
    db: D,
}

/// The answer of the database, with the text of a failure made an error.
pub open spec fn answer_of<T>(answer: Result<T, String>) -> Result<T, RocksdbStoreError> {
    match answer {
        Ok(value) => Ok(value),
        Err(text) => Err(RocksdbStoreError(text)),
    }
}

/// The changes that `ops` make.
pub open spec fn changes_of(ops: Seq<StoreOp>) -> Seq<store::Change> {
    ops.map_values(|op: StoreOp| op@)
}

/// The changes of a batch that stores `entries`.
pub open spec fn puts(entries: Seq<(Seq<u8>, Seq<u8>)>) -> Seq<store::Change> {
    entries.map_values(
        |e: (Seq<u8>, Seq<u8>)| (store::Change::Put { key: e.0, value: e.1 }),
    )
}

/// The changes of a batch that deletes `keys`.
pub open spec fn deletions(keys: Seq<Seq<u8>>) -> Seq<store::Change> {
    keys.map_values(|key: Seq<u8>| (store::Change::Delete { key }))
}

/// Entries, as plain bytes.
pub open spec fn entries_of(entries: Seq<(&[u8], &[u8])>) -> Seq<(Seq<u8>, Seq<u8>)> {
    entries.map_values(|e: (&[u8], &[u8])| (e.0@, e.1@))
}

/// Keys, as plain bytes.
pub open spec fn keys_of(keys: Seq<&[u8]>) -> Seq<Seq<u8>> {
    keys.map_values(|key: &[u8]| key@)
}

/// The answer of the database, with the text of a failure made an error.
pub fn store_answer<T>(answer: Result<T, String>) -> (result: Result<T, RocksdbStoreError>)
    ensures
        result == answer_of(answer),
{
    match answer {
        Ok(value) => Ok(value),
        Err(text) => Err(RocksdbStoreError::from(text)),
    }
}

impl<D> RocksdbStore<D> {
    /// The handle of the database.
    pub closed spec fn handle(self) -> D {
        self.db
    }

    /// What is to be opened for a store at `path`. A missing database is created.
    pub fn open<P>(path: P) -> (request: OpenRequest<P>)
        ensures
            request.path == path,
            request.create_if_missing,
    {
        OpenRequest { path, create_if_missing: true }
    }

    /// The store on a database, once an attempt to open it was made.
    pub fn open_with_options(opened: Result<D, String>) -> (store: Result<Self, RocksdbStoreError>)
        ensures
            match (store, opened) {
                (Ok(store), Ok(db)) => store.handle() == db,
                (Err(e), Err(text)) => e == RocksdbStoreError(text),
                _ => false,
            },
    {
        match store_answer(opened) {
            Ok(db) => Ok(RocksdbStore { db }),
            Err(e) => Err(e),
        }
    }

    pub fn db(&self) -> (db: &D)
        ensures
            *db == self.handle(),
    {
        &self.db
    }

    /// What a read of a key returns, from the answer of the database.
    pub fn get(&self, answer: Result<Option<Vec<u8>>, String>) -> (value: Result<
        Option<Vec<u8>>,
        RocksdbStoreError,
    >)
        ensures
            value == answer_of(answer),
    {
        store_answer(answer)
    }

    /// The write that stores `value` under `key`.
    pub fn set(&self, key: &[u8], value: &[u8]) -> (op: StoreOp)
        ensures
            op@ == (store::Change::Put { key: key@, value: value@ }),
    {
        StoreOp::Put { key: slice_to_vec(key), value: slice_to_vec(value) }
    }

    /// The write that removes `key`.
    pub fn del(&self, key: &[u8]) -> (op: StoreOp)
        ensures
            op@ == (store::Change::Delete { key: key@ }),
    {
        StoreOp::Delete { key: slice_to_vec(key) }
    }

    /// The scan for a range of keys.
    pub fn range(&self, range: KeyRange) -> (scan: RangeScan)
        ensures
            scan.range() == range,
            scan@ == scan_bounds(range),
    {
        RangeScan::new(range)
    }

    /// What a read of several keys returns, from the answers of the database: all values, or
    /// the first failure.
    pub fn batch_get(&self, answers: Vec<Result<Option<Vec<u8>>, String>>) -> (values: Result<
        Vec<Option<Vec<u8>>>,
        RocksdbStoreError,
    >)
        ensures
            match values {
                Ok(values) => {
                    &&& values@.len() == answers@.len()
                    &&& forall|i: int|
                        0 <= i < answers@.len() ==> #[trigger] answers@[i] == Ok::<
                            Option<Vec<u8>>,
                            String,
                        >(values@[i])
                },
                Err(e) => exists|i: int|
                    {
                        &&& 0 <= i < answers@.len()
                        &&& #[trigger] answers@[i] == Err::<Option<Vec<u8>>, String>(e.0)
                        &&& forall|j: int| 0 <= j < i ==> (#[trigger] answers@[j]) is Ok
                    },
            },
    {
        let ghost all = answers@;
        let mut values: Vec<Option<Vec<u8>>> = Vec::new();
        for answer in it: answers
            invariant
                it.seq() == all,
                values@.len() == it.index(),
                forall|i: int|
                    0 <= i < it.index() ==> #[trigger] all[i] == Ok::<Option<Vec<u8>>, String>(
                        values@[i],
                    ),
        {
            assert(answer == all[it.index() as int]);
            match store_answer(answer) {
                Ok(value) => values.push(value),
                Err(e) => return Err(e),
            }
        }
        Ok(values)
    }

    /// The writes that store `entries`, in order. They are to be made as one atomic batch.
    pub fn batch_set(&self, entries: &[(&[u8], &[u8])]) -> (ops: Vec<StoreOp>)
        ensures
            changes_of(ops@) == puts(entries_of(entries@)),
    {
        let mut ops: Vec<StoreOp> = Vec::new();
        for i in 0..entries.len()
            invariant
                ops@.len() == i,
                forall|k: int|
                    0 <= k < i ==> (#[trigger] ops@[k])@ == (store::Change::Put {
                        key: entries@[k].0@,
                        value: entries@[k].1@,
                    }),
        {
            ops.push(self.set(entries[i].0, entries[i].1));
        }
        assert(changes_of(ops@) =~= puts(entries_of(entries@)));
        ops
    }

    /// The writes that remove `keys`, in order. They are to be made as one atomic batch.
    pub fn batch_del(&self, keys: &[&[u8]]) -> (ops: Vec<StoreOp>)
        ensures
            changes_of(ops@) == deletions(keys_of(keys@)),
    {
        let mut ops: Vec<StoreOp> = Vec::new();
        for i in 0..keys.len()
            invariant
                ops@.len() == i,
                forall|k: int|
                    0 <= k < i ==> (#[trigger] ops@[k])@ == (store::Change::Delete {
                        key: keys@[k]@,
                    }),
        {
            ops.push(self.del(keys[i]));
        }
        assert(changes_of(ops@) =~= deletions(keys_of(keys@)));
        ops
    }
}

/// A key is read as it was last set, and as missing once it is deleted. Other keys are read as
/// before.
pub proof fn law_get_after_set_and_delete(
    contents: store::Contents,
    key: Seq<u8>,
    value: Seq<u8>,
    other: Seq<u8>,
)
    ensures
        store::lookup((store::Change::Put { key, value }).apply(contents), key) == Some(value),
        store::lookup((store::Change::Delete { key }).apply(contents), key) is None,
        other != key ==> store::lookup((store::Change::Put { key, value }).apply(contents), other)
            == store::lookup(contents, other) && store::lookup(
            (store::Change::Delete { key }).apply(contents),
            other,
        ) == store::lookup(contents, other),
{
}

/// To delete a key again changes nothing.
pub proof fn law_delete_is_idempotent(contents: store::Contents, key: Seq<u8>)
    ensures
        (store::Change::Delete { key }).apply((store::Change::Delete { key }).apply(contents)) == (
        store::Change::Delete { key }).apply(contents),
{
    let once = (store::Change::Delete { key }).apply(contents);
    assert((store::Change::Delete { key }).apply(once) =~= once);
}

/// After a batch of entries each of their keys is read as the last of them has it, and every
/// other key as before.
pub proof fn law_get_after_batch_set(
    contents: store::Contents,
    entries: Seq<(Seq<u8>, Seq<u8>)>,
    key: Seq<u8>,
)
    ensures
        ({
            let after = store::apply_all(puts(entries), contents);
            &&& forall|i: int|
                0 <= i < entries.len() && (#[trigger] entries[i]).0 == key && (forall|j: int|
                    i < j < entries.len() ==> (#[trigger] entries[j]).0 != key) ==> store::lookup(
                    after,
                    key,
                ) == Some(entries[i].1)
            &&& (forall|i: int| 0 <= i < entries.len() ==> (#[trigger] entries[i]).0 != key)
                ==> store::lookup(after, key) == store::lookup(contents, key)
        }),
    decreases entries.len(),
{
    if entries.len() > 0 {
        let rest = entries.drop_last();
        law_get_after_batch_set(contents, rest, key);
        assert(puts(entries).drop_last() =~= puts(rest));
        assert(puts(entries).last() == (store::Change::Put {
            key: entries.last().0,
            value: entries.last().1,
        }));
        let before = store::apply_all(puts(rest), contents);
        let after = store::apply_all(puts(entries), contents);
        law_get_after_set_and_delete(before, entries.last().0, entries.last().1, key);
        assert forall|i: int|
            0 <= i < entries.len() && (#[trigger] entries[i]).0 == key && (forall|j: int|
                i < j < entries.len() ==> (#[trigger] entries[j]).0 != key) implies store::lookup(
            after,
            key,
        ) == Some(entries[i].1) by {
            if i < entries.len() - 1 {
                assert(entries[entries.len() - 1].0 != key);
                assert(rest[i] == entries[i]);
                assert forall|j: int| i < j < rest.len() implies (#[trigger] rest[j]).0 != key by {
                    assert(rest[j] == entries[j]);
                }
            }
        }
        if forall|i: int| 0 <= i < entries.len() ==> (#[trigger] entries[i]).0 != key {
            assert(entries[entries.len() - 1].0 != key);
            assert forall|i: int| 0 <= i < rest.len() implies (#[trigger] rest[i]).0 != key by {
                assert(rest[i] == entries[i]);
            }
        }
    }
}

/// After a batch of deletions none of its keys is found, and every other key is read as before.
pub proof fn law_get_after_batch_del(contents: store::Contents, keys: Seq<Seq<u8>>, key: Seq<u8>)
    ensures
        store::lookup(store::apply_all(deletions(keys), contents), key) == (if keys.contains(key) {
            None
        } else {
            store::lookup(contents, key)
        }),
    decreases keys.len(),
{
    if keys.len() > 0 {
        let rest = keys.drop_last();
        law_get_after_batch_del(contents, rest, key);
        assert(deletions(keys).drop_last() =~= deletions(rest));
        assert(keys =~= rest.push(keys.last()));
        assert(keys.contains(key) == (rest.contains(key) || keys.last() == key)) by {
            if keys.contains(key) && keys.last() != key {
                let i = choose|i: int| 0 <= i < keys.len() && keys[i] == key;
                assert(rest[i] == key);
            }
            if rest.contains(key) {
                let i = choose|i: int| 0 <= i < rest.len() && rest[i] == key;
                assert(keys[i] == key);
            }
            assert(keys[keys.len() - 1] == keys.last());
        }
    }
}

/// A scan visits every key of its range.
pub proof fn law_scan_visits_the_range(range: KeyRange, key: Seq<u8>)
    requires
        range.holds(key),
    ensures
        scan_bounds(range).visits(key),
{
    if let RangeBound::Excluded(s) = range.start {
        kv_range::law_keys_are_ordered(s@, key);
        if s@ == key {
            kv_range::law_keys_are_ordered(key, key);
        }
    }
}

/// `entries` are the entries of a store whose keys meet `p`, each once, in the order of keys.
pub open spec fn is_listing(
    entries: Seq<(Seq<u8>, Seq<u8>)>,
    contents: store::Contents,
    p: spec_fn(Seq<u8>) -> bool,
) -> bool {
    &&& forall|i: int, j: int|
        0 <= i < j < entries.len() ==> kv_range::key_before(
            (#[trigger] entries[i]).0,
            (#[trigger] entries[j]).0,
        )
    &&& forall|i: int|
        0 <= i < entries.len() ==> p((#[trigger] entries[i]).0) && store::lookup(
            contents,
            entries[i].0,
        ) == Some(entries[i].1)
    &&& forall|key: Seq<u8>|
        p(key) && #[trigger] store::lookup(contents, key) is Some ==> entries.contains(
            (key, store::lookup(contents, key)->0),
        )
}

/// The keys of a filtered sequence are ordered where those of the sequence are, and it has
/// the entries that meet `p`.
proof fn lemma_filter_keeps_order(
    entries: Seq<(Seq<u8>, Seq<u8>)>,
    p: spec_fn((Seq<u8>, Seq<u8>)) -> bool,
)
    requires
        forall|i: int, j: int|
            0 <= i < j < entries.len() ==> kv_range::key_before(
                (#[trigger] entries[i]).0,
                (#[trigger] entries[j]).0,
            ),
    ensures
        forall|i: int, j: int|
            0 <= i < j < entries.filter(p).len() ==> kv_range::key_before(
                (#[trigger] entries.filter(p)[i]).0,
                (#[trigger] entries.filter(p)[j]).0,
            ),
        forall|i: int|
            0 <= i < entries.filter(p).len() ==> p(#[trigger] entries.filter(p)[i])
                && entries.contains(entries.filter(p)[i]),
        forall|i: int|
            0 <= i < entries.len() && p(#[trigger] entries[i]) ==> entries.filter(p).contains(
                entries[i],
            ),
    decreases entries.len(),
{
    reveal(Seq::filter);
    if entries.len() > 0 {
        let rest = entries.drop_last();
        let last = entries.last();
        lemma_filter_keeps_order(rest, p);
        let out = entries.filter(p);
        let sub = rest.filter(p);
        assert forall|i: int| 0 <= i < sub.len() implies entries.contains(#[trigger] sub[i])
            && kv_range::key_before(sub[i].0, last.0) by {
            let k = choose|k: int| 0 <= k < rest.len() && rest[k] == sub[i];
            assert(entries[k] == sub[i]);
            assert(entries[entries.len() - 1] == last);
        }
        assert forall|i: int| 0 <= i < out.len() implies p(#[trigger] out[i]) && entries.contains(
            out[i],
        ) by {
            if i < sub.len() {
                assert(out[i] == sub[i]);
            } else {
                assert(entries[entries.len() - 1] == last);
            }
        }
        assert forall|i: int, j: int| 0 <= i < j < out.len() implies kv_range::key_before(
            (#[trigger] out[i]).0,
            (#[trigger] out[j]).0,
        ) by {
            assert(out[i] == sub[i]);
            if j < sub.len() {
                assert(out[j] == sub[j]);
            }
        }
        assert forall|i: int| 0 <= i < entries.len() && p(#[trigger] entries[i]) implies out.contains(
            entries[i],
        ) by {
            if i < rest.len() {
                assert(rest[i] == entries[i]);
                let k = choose|k: int| 0 <= k < sub.len() && sub[k] == entries[i];
                assert(out[k] == entries[i]);
            } else {
                assert(out[out.len() - 1] == entries[i]);
            }
        }
    }
}

/// What a scan comes upon, less what is not in the range, is what the store holds in the
/// range, in the order of keys.
pub proof fn law_range_lists_the_range(
    scanned: Seq<(Seq<u8>, Seq<u8>)>,
    contents: store::Contents,
    range: KeyRange,
)
    requires
        is_listing(scanned, contents, |key: Seq<u8>| scan_bounds(range).visits(key)),
    ensures
        is_listing(
            scanned.filter(|e: (Seq<u8>, Seq<u8>)| range.holds(e.0)),
            contents,
            |key: Seq<u8>| range.holds(key),
        ),
{
    let p = |e: (Seq<u8>, Seq<u8>)| range.holds(e.0);
    let visits = |key: Seq<u8>| scan_bounds(range).visits(key);
    lemma_filter_keeps_order(scanned, p);
    let out = scanned.filter(p);
    assert forall|i: int| 0 <= i < out.len() implies range.holds((#[trigger] out[i]).0)
        && store::lookup(contents, out[i].0) == Some(out[i].1) by {
        let k = choose|k: int| 0 <= k < scanned.len() && scanned[k] == out[i];
        assert(visits(scanned[k].0));
    }
    assert forall|key: Seq<u8>|
        range.holds(key) && #[trigger] store::lookup(contents, key) is Some implies out.contains(
        (key, store::lookup(contents, key)->0),
    ) by {
        law_scan_visits_the_range(range, key);
        assert(visits(key));
        let e = (key, store::lookup(contents, key)->0);
        let k = choose|k: int| 0 <= k < scanned.len() && scanned[k] == e;
        assert(p(scanned[k]));
    }
}

/// The entries that a scan comes upon, where it comes upon no failure.
pub open spec fn scan_entries(items: Seq<ScanItem>) -> Seq<(Seq<u8>, Seq<u8>)> {
    items.map_values(|item: ScanItem| (item->Ok_0.0@, item->Ok_0.1@))
}

/// The entries that are handed out for a range, where no failure is.
pub open spec fn range_entries(items: Seq<RangeItem>) -> Seq<(Seq<u8>, Seq<u8>)> {
    items.map_values(|item: RangeItem| (item->Ok_0.0@, item->Ok_0.1@))
}

/// Without failures, what is handed out are the entries that are in the range.
proof fn lemma_range_entries(items: Seq<ScanItem>, range: KeyRange)
    requires
        forall|i: int| 0 <= i < items.len() ==> (#[trigger] items[i]) is Ok,
    ensures
        forall|i: int|
            0 <= i < range_items(items, range).len() ==> (#[trigger] range_items(
                items,
                range,
            )[i]) is Ok,
        range_entries(range_items(items, range)) == scan_entries(items).filter(
            |e: (Seq<u8>, Seq<u8>)| range.holds(e.0),
        ),
    decreases items.len(),
{
    reveal(Seq::filter);
    let p = |e: (Seq<u8>, Seq<u8>)| range.holds(e.0);
    let out = range_items(items, range);
    if items.len() == 0 {
        assert(out =~= seq![]);
        assert(scan_entries(items) =~= seq![]);
        assert(range_entries(out) =~= scan_entries(items).filter(p));
    } else {
        let rest = items.drop_last();
        let last = items.last();
        assert forall|i: int| 0 <= i < rest.len() implies (#[trigger] rest[i]) is Ok by {
            assert(rest[i] == items[i]);
        }
        lemma_range_entries(rest, range);
        lemma_range_items_push(rest, last, range);
        assert(items =~= rest.push(last));
        assert(items[items.len() - 1] is Ok);
        let entry = (last->Ok_0.0@, last->Ok_0.1@);
        assert(scan_entries(items).drop_last() =~= scan_entries(rest));
        assert(scan_entries(items).last() == entry);
        let sub = range_items(rest, range);
        if is_handed_out(last, range) {
            assert(out == sub.push(handed_out(last)));
            assert forall|i: int| 0 <= i < out.len() implies (#[trigger] out[i]) is Ok by {
                if i < sub.len() {
                    assert(out[i] == sub[i]);
                }
            }
            assert(range_entries(out) =~= range_entries(sub).push(entry));
        }
    }
}

/// A range request hands out what the store holds in the range, in the order of keys, where
/// the scan comes upon what the store holds within its bounds and upon no failure.
pub proof fn law_range_items_list_the_range(
    items: Seq<ScanItem>,
    contents: store::Contents,
    range: KeyRange,
)
    requires
        forall|i: int| 0 <= i < items.len() ==> (#[trigger] items[i]) is Ok,
        is_listing(
            scan_entries(items),
            contents,
            |key: Seq<u8>| scan_bounds(range).visits(key),
        ),
    ensures
        forall|i: int|
            0 <= i < range_items(items, range).len() ==> (#[trigger] range_items(
                items,
                range,
            )[i]) is Ok,
        is_listing(
            range_entries(range_items(items, range)),
            contents,
            |key: Seq<u8>| range.holds(key),
        ),
{
    lemma_range_entries(items, range);
    law_range_lists_the_range(scan_entries(items), contents, range);
}

/// What a range request hands out for one more item: a failure as it is, an entry if and only if
/// its key is in the range, and everything in the order in which it was come upon.
pub proof fn law_what_is_handed_out(
    items: Seq<ScanItem>,
    range: KeyRange,
    key: Vec<u8>,
    value: Vec<u8>,
    text: String,
)
    ensures
        range_items(Seq::empty(), range).len() == 0,
        range_items(items.push(Err(text)), range) == range_items(items, range).push(
            Err(RocksdbStoreError(text)),
        ),
        range.holds(key@) ==> range_items(items.push(Ok((key, value))), range) == range_items(
            items,
            range,
        ).push(Ok((key, value))),
        !range.holds(key@) ==> range_items(items.push(Ok((key, value))), range) == range_items(
            items,
            range,
        ),
{
    reveal(Seq::filter);
    lemma_range_items_push(items, Err(text), range);
    lemma_range_items_push(items, Ok((key, value)), range);
}

/// An answer of the database is passed on, with the text of a failure as it is.
pub proof fn law_answers_are_passed_on<T>(value: T, text: String)
    ensures
        answer_of(Ok::<T, String>(value)) == Ok::<T, RocksdbStoreError>(value),
        answer_of(Err::<T, String>(text)) == Err::<T, RocksdbStoreError>(RocksdbStoreError(text)),
{
}

/// A batch makes one change for each of its entries, in their order.
pub proof fn law_batches_are_complete(
    entries: Seq<(Seq<u8>, Seq<u8>)>,
    keys: Seq<Seq<u8>>,
    i: int,
)
    ensures
        puts(entries).len() == entries.len(),
        deletions(keys).len() == keys.len(),
        0 <= i < entries.len() ==> (puts(entries)[i] matches store::Change::Put { key, value }
            && key == entries[i].0 && value == entries[i].1),
        0 <= i < keys.len() ==> (deletions(keys)[i] matches store::Change::Delete { key } && key
            == keys[i]),
{
}

} // verus!
