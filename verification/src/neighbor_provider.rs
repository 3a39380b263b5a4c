//! The neighbor lists of an index, one entry of the store per vector.

use crate::adjacency;
use crate::backend::StoreConfig;
use crate::byte_image;
use crate::byte_image::{Castable, Word};
use crate::error::IndexError;
use crate::kv_codec::neighbor as codec;
use crate::store;
use crate::store::StoreOp;
use diskann::graph::AdjacencyList;
use vstd::prelude::*;

verus! {

/// Reads and writes the neighbor lists of vectors.
///
/// A list is stored as `|VectorId|VectorId|...|Invalid|Invalid|VectorId (list length)|`, where
/// 'Invalid' stands for unfilled slots.
pub struct NeighborProvider<C: StoreConfig> {
    config: C,
    /// The slots of a full list: one per neighbor, and one for their number.
    dim: usize,
}

/// `list`, extended by those of `new_ids` that it lacks, in order, until it has `max` ids.
pub open spec fn append_unique(list: Seq<u32>, new_ids: Seq<u32>, max: nat) -> Seq<u32>
    decreases new_ids.len(),
{
    if new_ids.len() == 0 || list.len() == max {
        list
    } else if list.contains(new_ids[0]) {
        append_unique(list, new_ids.drop_first(), max)
    } else {
        append_unique(list.push(new_ids[0]), new_ids.drop_first(), max)
    }
}

/// `list`, filled up with zeros to `dim` slots, the last of which is the number of ids.
pub open spec fn padded(list: Seq<u32>, dim: nat) -> Seq<u32> {
    Seq::new(
        dim,
        |i: int|
            if i == dim - 1 {
                list.len() as u32
            } else if i < list.len() {
                list[i]
            } else {
                0u32
            },
    )
}

impl<C: StoreConfig> NeighborProvider<C> {
    /// The largest number of neighbors of a vector.
    pub closed spec fn degree(self) -> nat {
        (self.dim - 1) as nat
    }

    pub closed spec fn configuration(self) -> C {
        self.config
    }

    /// A list has room for its number of ids, and that number is an id.
    #[verifier::type_invariant]
    pub closed spec fn wf(self) -> bool {
        1 <= self.dim <= u32::MAX + 1
    }

    /// The neighbors that an answer of the store stands for.
    pub open spec fn list_in(self, reply: Option<Seq<u8>>) -> Result<Seq<u32>, IndexError> {
        match reply {
            None => Err(IndexError::NeighborsNotFound { backend: C::backend() }),
            Some(value) => codec::read_list::<u32>(value, self.degree() + 1),
        }
    }

    /// The write that stores `ids` as the neighbors of `vector_id`.
    pub open spec fn set_change(self, vector_id: u32, ids: Seq<u32>) -> store::Change {
        store::Change::Put {
            key: store::key_of(vector_id as nat),
            value: codec::stored_list(ids),
        }
    }

    /// The write that appends `new_ids` to the neighbors `list` of `vector_id`, if any of
    /// them is to be added.
    pub open spec fn append_change(
        self,
        vector_id: u32,
        list: Seq<u32>,
        new_ids: Seq<u32>,
    ) -> Option<store::Change> {
        let longer = append_unique(list, new_ids, self.degree());
        if longer == list {
            None
        } else {
            Some(
                store::Change::Put {
                    key: store::key_of(vector_id as nat),
                    value: byte_image::words_bytes(padded(longer, self.degree() + 1)),
                },
            )
        }
    }

    /// A provider of lists of up to `max_degree` neighbors.
    pub fn new_with_config(max_degree: u32, config: C) -> (provider: Self)
        requires
            max_degree < usize::MAX,
        ensures
            provider.degree() == max_degree,
            provider.configuration() == config,
    {
        NeighborProvider { config, dim: 1 + max_degree as usize }
    }

    pub fn config(&self) -> (config: &C)
        ensures
            *config == self.configuration(),
    {
        &self.config
    }

    /// The largest number of neighbors of a vector.
    pub fn max_degree(&self) -> (max_degree: u32)
        ensures
            max_degree == self.degree(),
    {
        proof {
            use_type_invariant(self);
        }
        (self.dim - 1) as u32
    }

    /// The key under which the neighbors of a vector are stored.
    pub fn key(&self, vector_id: u32) -> (key: Vec<u8>)
        ensures
            key@ == store::key_of(vector_id as nat),
    {
        store::index_key(vector_id as usize)
    }

    /// The neighbors that an answer of the store stands for. An empty value is an empty list.
    pub fn decode_neighbors(&self, reply: Option<&[u8]>) -> (ids: Result<Vec<u32>, IndexError>)
        ensures
            match (ids, self.list_in(store::reply_bytes(reply))) {
                (Ok(v), Ok(list)) => v@ == list,
                (Err(e), Err(f)) => e == f,
                _ => false,
            },
    {
        proof {
            use_type_invariant(self);
        }
        let value = match reply {
            Some(value) => value,
            None => return Err(IndexError::NeighborsNotFound { backend: C::backend_name() }),
        };
        let mut slots: Vec<u32> = Vec::new();
        if value.len() % 4 == 0 {
            slots = u32::from_bytes(value);
            proof {
                byte_image::lemma_words_of_bytes(slots@);
                byte_image::lemma_words_bytes_len(slots@);
            }
        }
        let count = codec::validate_and_count::<u32>(value.len(), self.dim, slots.as_slice())?;
        slots.truncate(count);
        Ok(slots)
    }

    /// Whether `get_neighbors` and `append_vector` can be asked about an answer of the store: it
    /// stands for no list that has an id twice.
    pub fn is_readable(&self, reply: Option<&[u8]>) -> (readable: bool)
        ensures
            readable == (self.list_in(store::reply_bytes(reply)) matches Ok(list)
                ==> list.no_duplicates()),
    {
        let ids = match self.decode_neighbors(reply) {
            Ok(ids) => ids,
            Err(_) => return true,
        };
        let mut i: usize = 0;
        while i < ids.len()
            invariant
                i <= ids@.len(),
                ids@.take(i as int).no_duplicates(),
                self.list_in(store::reply_bytes(reply)) == Ok::<Seq<u32>, IndexError>(ids@),
            decreases ids.len() - i,
        {
            let mut j: usize = 0;
            while j < i
                invariant
                    j <= i < ids@.len(),
                    forall|k: int| 0 <= k < j ==> #[trigger] ids@[k] != ids@[i as int],
                    self.list_in(store::reply_bytes(reply)) == Ok::<Seq<u32>, IndexError>(ids@),
                decreases i - j,
            {
                if ids[j] == ids[i] {
                    assert(!ids@.no_duplicates());
                    return false;
                }
                j += 1;
            }
            i += 1;
        }
        assert(ids@.take(ids@.len() as int) =~= ids@);
        true
    }

    /// Retrieves the neighbors of a vector from the answer of the store to a read of its key.
    ///
    /// `neighbors` holds nothing but these neighbors afterwards, and nothing on an error. An
    /// adjacency list has no room for an id twice.
    pub fn get_neighbors(
        &self,
        reply: Option<&[u8]>,
        neighbors: &mut AdjacencyList<u32>,
    ) -> (done: Result<(), IndexError>)
        requires
            self.list_in(store::reply_bytes(reply)) matches Ok(list) ==> list.no_duplicates(),
        ensures
            match (done, self.list_in(store::reply_bytes(reply))) {
                (Ok(()), Ok(list)) => adjacency::adjacency_ids(*final(neighbors)) == list,
                (Err(e), Err(f)) => e == f && adjacency::adjacency_ids(*final(neighbors)).len()
                    == 0,
                _ => false,
            },
    {
        match self.decode_neighbors(reply) {
            Ok(ids) => {
                assert(ids@.take(ids@.len() as int) =~= ids@);
                adjacency::adjacency_fill(neighbors, ids.as_slice(), ids.len());
                Ok(())
            },
            Err(e) => {
                adjacency::adjacency_clear(neighbors);
                Err(e)
            },
        }
    }

    /// The write that makes `neighbors` the neighbors of a vector.
    pub fn set_neighbors(&self, vector_id: u32, neighbors: &[u32]) -> (op: Result<
        StoreOp,
        IndexError,
    >)
        ensures
            match op {
                Ok(op) => neighbors@.len() <= self.degree() && op@ == self.set_change(
                    vector_id,
                    neighbors@,
                ),
                Err(e) => neighbors@.len() > self.degree() && e
                    == IndexError::ListExceedsMaxDegree,
            },
    {
        proof {
            use_type_invariant(self);
            reveal_with_fuel(byte_image::byte_range, 5);
        }
        if neighbors.len() > self.dim - 1 {
            return Err(IndexError::ListExceedsMaxDegree);
        }
        Ok(StoreOp::Put { key: self.key(vector_id), value: codec::serialize::<u32>(neighbors) })
    }

    /// The write that appends those of `new_neighbor_ids` that are new to the neighbors of a
    /// vector, as far as the max degree allows. Nothing is written where nothing is added.
    ///
    /// `reply` is the answer of the store to a read of the key of the vector. The list that is
    /// written has `dim` slots, so that later appends need not grow it.
    pub fn append_vector(
        &self,
        vector_id: u32,
        reply: Option<&[u8]>,
        new_neighbor_ids: &[u32],
    ) -> (op: Result<Option<StoreOp>, IndexError>)
        requires
            self.list_in(store::reply_bytes(reply)) matches Ok(list) ==> list.no_duplicates(),
        ensures
            match (op, self.list_in(store::reply_bytes(reply))) {
                (Ok(op), Ok(list)) => match (
                    op,
                    self.append_change(vector_id, list, new_neighbor_ids@),
                ) {
                    (Some(op), Some(change)) => op@ == change,
                    (None, None) => true,
                    _ => false,
                },
                (Err(e), Err(f)) => e == f,
                _ => false,
            },
    {
        proof {
            use_type_invariant(self);
        }
        let mut neighbor_list = adjacency::adjacency_new();
        self.get_neighbors(reply, &mut neighbor_list)?;
        let ghost list = adjacency::adjacency_ids(neighbor_list);
        let ghost max = self.degree();
        proof {
            lemma_read_list_fits(store::reply_bytes(reply).unwrap(), max + 1);
        }
        let mut added = false;
        let mut k: usize = 0;
        assert(new_neighbor_ids@.skip(0) =~= new_neighbor_ids@);
        while k < new_neighbor_ids.len() && adjacency::adjacency_len(&neighbor_list) != self.dim
            - 1
            invariant
                k <= new_neighbor_ids@.len(),
                max == self.dim - 1,
                list.len() <= adjacency::adjacency_ids(neighbor_list).len() <= max,
                added == (adjacency::adjacency_ids(neighbor_list).len() > list.len()),
                !added ==> adjacency::adjacency_ids(neighbor_list) == list,
                append_unique(list, new_neighbor_ids@, max) == append_unique(
                    adjacency::adjacency_ids(neighbor_list),
                    new_neighbor_ids@.skip(k as int),
                    max,
                ),
            decreases new_neighbor_ids.len() - k,
        {
            assert(new_neighbor_ids@.skip(k as int).drop_first() =~= new_neighbor_ids@.skip(k + 1));
            if adjacency::adjacency_push(&mut neighbor_list, new_neighbor_ids[k]) {
                added = true;
            }
            k += 1;
        }
        let ghost longer = adjacency::adjacency_ids(neighbor_list);
        assert(longer == append_unique(list, new_neighbor_ids@, max));
        if !added {
            return Ok(None);
        }
        let count = adjacency::adjacency_len(&neighbor_list);
        let mut slots = adjacency::adjacency_into_vec(neighbor_list);
        slots.resize(self.dim, 0);
        assert(slots@.subrange(0, longer.len() as int) =~= longer);
        slots[self.dim - 1] = count as u32;
        proof {
            let grown = slots@;
            assert forall|i: int| 0 <= i < longer.len() implies #[trigger] grown[i]
                == longer[i] by {
                assert(grown.subrange(0, longer.len() as int)[i] == longer[i]);
            }
            assert(slots@ =~= padded(longer, max + 1));
        }
        Ok(Some(StoreOp::Put { key: self.key(vector_id), value: u32::to_bytes(slots.as_slice()) }))
    }

    /// The write that removes the neighbors of a vector from the store.
    pub fn delete_vector(&self, vector_id: u32) -> (op: StoreOp)
        ensures
            op@ == (store::Change::Delete { key: store::key_of(vector_id as nat) }),
    {
        StoreOp::Delete { key: self.key(vector_id) }
    }
}

/// A list that is read has room for one more slot.
proof fn lemma_read_list_fits(value: Seq<u8>, dim: nat)
    requires
        codec::read_list::<u32>(value, dim) is Ok,
        dim >= 1,
    ensures
        codec::read_list::<u32>(value, dim)->Ok_0.len() + 1 <= dim,
{
    if value.len() > 0 {
        byte_image::lemma_words_bytes_of::<u32>(value);
    }
}

proof fn lemma_read_padded_list(list: Seq<u32>, dim: nat)
    requires
        list.len() < dim,
        list.len() <= u32::MAX,
    ensures
        codec::read_list::<u32>(byte_image::words_bytes(padded(list, dim)), dim) == Ok::<
            Seq<u32>,
            IndexError,
        >(list),
{
    codec::lemma_read_padded::<u32>(padded(list, dim), list.len(), dim);
    assert(padded(list, dim).take(list.len() as int) =~= list);
}

/// Appending keeps the old neighbors in front, in order; adds only ids that were asked for;
/// never adds an id that the list holds; never exceeds the max degree; and leaves out an id
/// that was asked for only where the list is full.
pub proof fn law_append_unique(list: Seq<u32>, new_ids: Seq<u32>, max: nat)
    requires
        list.len() <= max,
    ensures
        list.is_prefix_of(append_unique(list, new_ids, max)),
        append_unique(list, new_ids, max).len() <= max,
        list.no_duplicates() ==> append_unique(list, new_ids, max).no_duplicates(),
        forall|id: u32| #[trigger]
            append_unique(list, new_ids, max).contains(id) ==> list.contains(id)
                || new_ids.contains(id),
        append_unique(list, new_ids, max).len() < max ==> forall|id: u32| #[trigger]
            new_ids.contains(id) ==> append_unique(list, new_ids, max).contains(id),
    decreases new_ids.len(),
{
    let longer = append_unique(list, new_ids, max);
    if new_ids.len() == 0 || list.len() == max {
    } else {
        let first = new_ids[0];
        let rest = new_ids.drop_first();
        let next = if list.contains(first) {
            list
        } else {
            list.push(first)
        };
        law_append_unique(next, rest, max);
        assert(list.is_prefix_of(next));
        assert forall|id: u32| #[trigger] longer.contains(id) implies list.contains(id)
            || new_ids.contains(id) by {
            assert(next.contains(id) || rest.contains(id));
            if rest.contains(id) {
                let k = choose|k: int| 0 <= k < rest.len() && rest[k] == id;
                assert(new_ids[k + 1] == id);
            } else if !list.contains(id) {
                assert(id == first);
            }
        }
        if longer.len() < max {
            assert forall|id: u32| #[trigger] new_ids.contains(id) implies longer.contains(id) by {
                let k = choose|k: int| 0 <= k < new_ids.len() && new_ids[k] == id;
                if k == 0 {
                    assert(next.contains(first)) by {
                        if !list.contains(first) {
                            assert(next.last() == first);
                        }
                    }
                    let j = choose|j: int| 0 <= j < next.len() && next[j] == first;
                    assert(longer[j] == first);
                } else {
                    assert(rest[k - 1] == id);
                    assert(rest.contains(id));
                }
            }
        }
    }
}

/// A list that was set is the list that is read.
pub proof fn law_get_after_set<C: StoreConfig>(
    provider: NeighborProvider<C>,
    contents: store::Contents,
    vector_id: u32,
    ids: Seq<u32>,
)
    requires
        provider.wf(),
        ids.len() <= provider.degree(),
    ensures
        provider.list_in(
            store::lookup(
                provider.set_change(vector_id, ids).apply(contents),
                store::key_of(vector_id as nat),
            ),
        ) == Ok::<Seq<u32>, IndexError>(ids),
{
    reveal_with_fuel(byte_image::byte_range, 5);
    codec::law_serialize_round_trip::<u32>(ids, provider.degree() + 1);
}

/// After an append, the list that is read is the old one with the new ids appended.
pub proof fn law_get_after_append<C: StoreConfig>(
    provider: NeighborProvider<C>,
    contents: store::Contents,
    vector_id: u32,
    list: Seq<u32>,
    new_ids: Seq<u32>,
)
    requires
        provider.wf(),
        provider.list_in(store::lookup(contents, store::key_of(vector_id as nat))) == Ok::<
            Seq<u32>,
            IndexError,
        >(list),
    ensures
        ({
            let after = match provider.append_change(vector_id, list, new_ids) {
                Some(change) => change.apply(contents),
                None => contents,
            };
            provider.list_in(store::lookup(after, store::key_of(vector_id as nat))) == Ok::<
                Seq<u32>,
                IndexError,
            >(append_unique(list, new_ids, provider.degree()))
        }),
{
    let max = provider.degree();
    lemma_read_list_fits(contents[store::key_of(vector_id as nat)], max + 1);
    law_append_unique(list, new_ids, max);
    lemma_read_padded_list(append_unique(list, new_ids, max), max + 1);
}

/// A vector whose entry was deleted has no neighbor list.
pub proof fn law_get_after_delete<C: StoreConfig>(
    provider: NeighborProvider<C>,
    contents: store::Contents,
    vector_id: u32,
)
    ensures
        provider.list_in(
            store::lookup(
                (store::Change::Delete { key: store::key_of(vector_id as nat) }).apply(contents),
                store::key_of(vector_id as nat),
            ),
        ) == Err::<Seq<u32>, IndexError>(IndexError::NeighborsNotFound { backend: C::backend() }),
{
}

/// Setting, appending and deleting the neighbors of one vector leaves those of every other
/// vector as they were.
pub proof fn law_other_vectors_keep_their_lists<C: StoreConfig>(
    provider: NeighborProvider<C>,
    contents: store::Contents,
    change: store::Change,
    vector_id: u32,
    other: u32,
)
    requires
        change.key() == store::key_of(vector_id as nat),
        other != vector_id,
    ensures
        provider.list_in(store::lookup(change.apply(contents), store::key_of(other as nat)))
            == provider.list_in(store::lookup(contents, store::key_of(other as nat))),
{
    store::lemma_keys_distinct(vector_id as nat, other as nat);
}

/// Lists look the same in every kind of store: what a provider writes for one kind, a provider
/// for another kind reads as the same list.
pub proof fn law_layout_is_shared<C: StoreConfig, E: StoreConfig>(
    writer: NeighborProvider<C>,
    reader: NeighborProvider<E>,
    vector_id: u32,
    ids: Seq<u32>,
    value: Seq<u8>,
)
    requires
        writer.degree() == reader.degree(),
    ensures
        writer.set_change(vector_id, ids) == reader.set_change(vector_id, ids),
        writer.list_in(Some(value)) == reader.list_in(Some(value)),
{
}

/// Whether every list in a store can be read into an adjacency list: none has an id twice.
pub open spec fn lists_are_readable<C: StoreConfig>(
    provider: NeighborProvider<C>,
    contents: store::Contents,
) -> bool {
    forall|id: u32|
        (#[trigger] provider.list_in(store::lookup(contents, store::key_of(id as nat)))) matches Ok(
            list,
        ) ==> list.no_duplicates()
}

/// Lists stay readable: a store without a list that has an id twice is left without one by an
/// append, by a deletion, and by setting a list of different ids. So reading and appending are
/// always possible in a store that is only written in these ways.
pub proof fn law_lists_stay_readable<C: StoreConfig>(
    provider: NeighborProvider<C>,
    contents: store::Contents,
    vector_id: u32,
    ids: Seq<u32>,
)
    requires
        provider.wf(),
        lists_are_readable(provider, contents),
    ensures
        ids.no_duplicates() && ids.len() <= provider.degree() ==> lists_are_readable(
            provider,
            provider.set_change(vector_id, ids).apply(contents),
        ),
        lists_are_readable(
            provider,
            (store::Change::Delete { key: store::key_of(vector_id as nat) }).apply(contents),
        ),
        provider.list_in(store::lookup(contents, store::key_of(vector_id as nat))) matches Ok(list)
            ==> (provider.append_change(vector_id, list, ids) matches Some(change)
            ==> lists_are_readable(provider, change.apply(contents))),
{
    let key = store::key_of(vector_id as nat);
    let set = provider.set_change(vector_id, ids);
    if ids.no_duplicates() && ids.len() <= provider.degree() {
        law_get_after_set(provider, contents, vector_id, ids);
        lemma_readable_after(provider, contents, set, vector_id);
    }
    lemma_readable_after(provider, contents, store::Change::Delete { key }, vector_id);
    if let Ok(list) = provider.list_in(store::lookup(contents, key)) {
        if let Some(change) = provider.append_change(vector_id, list, ids) {
            law_get_after_append(provider, contents, vector_id, list, ids);
            lemma_read_list_fits(contents[key], provider.degree() + 1);
            law_append_unique(list, ids, provider.degree());
            lemma_readable_after(provider, contents, change, vector_id);
        }
    }
}

/// Lists stay readable where the one that is changed does.
proof fn lemma_readable_after<C: StoreConfig>(
    provider: NeighborProvider<C>,
    contents: store::Contents,
    change: store::Change,
    vector_id: u32,
)
    requires
        lists_are_readable(provider, contents),
        change.key() == store::key_of(vector_id as nat),
        provider.list_in(
            store::lookup(change.apply(contents), store::key_of(vector_id as nat)),
        ) matches Ok(list) ==> list.no_duplicates(),
    ensures
        lists_are_readable(provider, change.apply(contents)),
{
    assert forall|id: u32|
        (#[trigger] provider.list_in(
            store::lookup(change.apply(contents), store::key_of(id as nat)),
        )) is Ok implies provider.list_in(
        store::lookup(change.apply(contents), store::key_of(id as nat)),
    )->Ok_0.no_duplicates() by {
        if id != vector_id {
            law_other_vectors_keep_their_lists(provider, contents, change, vector_id, id);
        }
    }
}

/// The next id that was asked for is in a list that is appended to, once it was looked at.
proof fn lemma_first_is_in(list: Seq<u32>, first: u32)
    ensures
        ({
            let next = if list.contains(first) {
                list
            } else {
                list.push(first)
            };
            &&& next.contains(first)
            &&& forall|id: u32| list.contains(id) ==> #[trigger] next.contains(id)
        }),
{
    if !list.contains(first) {
        let next = list.push(first);
        assert(next[list.len() as int] == first);
        assert forall|id: u32| list.contains(id) implies #[trigger] next.contains(id) by {
            let j = choose|j: int| 0 <= j < list.len() && list[j] == id;
            assert(next[j] == id);
        }
    }
}

/// What an append adds. The list is kept, and what is added stands behind it; it was asked for,
/// the list lacked it, and it is added once.
pub proof fn law_append_adds_new_ids(list: Seq<u32>, new_ids: Seq<u32>, max: nat)
    requires
        list.len() <= max,
    ensures
        ({
            let out = append_unique(list, new_ids, max);
            &&& list.len() <= out.len() <= max
            &&& out.take(list.len() as int) == list
            &&& forall|i: int|
                list.len() <= i < out.len() ==> new_ids.contains(#[trigger] out[i])
                    && !list.contains(out[i])
            &&& forall|i: int, j: int|
                list.len() <= i < j < out.len() ==> #[trigger] out[i] != #[trigger] out[j]
        }),
    decreases new_ids.len(),
{
    let out = append_unique(list, new_ids, max);
    if new_ids.len() == 0 || list.len() == max {
        assert(out.take(list.len() as int) =~= list);
    } else {
        let first = new_ids[0];
        let rest = new_ids.drop_first();
        let next = if list.contains(first) {
            list
        } else {
            list.push(first)
        };
        lemma_first_is_in(list, first);
        law_append_adds_new_ids(next, rest, max);
        assert(forall|i: int| 0 <= i < next.len() ==> out.take(next.len() as int)[i] == #[trigger] out[i]);
        assert(out.take(list.len() as int) =~= list);
        assert forall|i: int| list.len() <= i < out.len() implies new_ids.contains(
            #[trigger] out[i],
        ) && !list.contains(out[i]) by {
            if i < next.len() {
                assert(new_ids[0] == out[i]);
            } else {
                let k = choose|k: int| 0 <= k < rest.len() && rest[k] == out[i];
                assert(new_ids[k + 1] == out[i]);
            }
        }
        assert forall|i: int, j: int| list.len() <= i < j < out.len() implies #[trigger] out[i]
            != #[trigger] out[j] by {
            if i < next.len() {
                assert(next.contains(out[i]));
                assert(!next.contains(out[j]));
            }
        }
    }
}

/// In which order an append adds ids, and which it leaves out. An id that stands before another
/// in what is added was asked for before that other. An id is only left out for want of room, and
/// then everything that is added was asked for before it.
pub proof fn law_append_order(list: Seq<u32>, new_ids: Seq<u32>, max: nat)
    requires
        list.len() <= max,
    ensures
        ({
            let out = append_unique(list, new_ids, max);
            &&& forall|i: int, j: int, p: int|
                #![trigger out[i], out[j], new_ids[p]]
                list.len() <= i < j < out.len() && 0 <= p < new_ids.len() && new_ids[p] == out[j]
                    ==> new_ids.take(p).contains(out[i])
            &&& forall|p: int|
                0 <= p < new_ids.len() && !out.contains(#[trigger] new_ids[p]) ==> out.len() == max
            &&& forall|p: int, i: int|
                #![trigger new_ids[p], out[i]]
                0 <= p < new_ids.len() && !out.contains(new_ids[p]) && list.len() <= i < out.len()
                    ==> new_ids.take(p).contains(out[i])
        }),
    decreases new_ids.len(),
{
    let out = append_unique(list, new_ids, max);
    if new_ids.len() == 0 || list.len() == max {
    } else {
        let first = new_ids[0];
        let rest = new_ids.drop_first();
        let next = if list.contains(first) {
            list
        } else {
            list.push(first)
        };
        lemma_first_is_in(list, first);
        law_append_order(next, rest, max);
        law_append_adds_new_ids(next, rest, max);
        assert forall|i: int| 0 <= i < next.len() implies #[trigger] out[i] == next[i] by {
            assert(out.take(next.len() as int)[i] == next[i]);
        }
        assert(out.contains(first)) by {
            let j = choose|j: int| 0 <= j < next.len() && next[j] == first;
            assert(out[j] == first);
        }
        assert forall|i: int, j: int, p: int|
            #![trigger out[i], out[j], new_ids[p]]
            list.len() <= i < j < out.len() && 0 <= p < new_ids.len() && new_ids[p]
                == out[j] implies new_ids.take(p).contains(out[i]) by {
            assert(!next.contains(out[j]));
            assert(p > 0);
            assert(rest[p - 1] == out[j]);
            lemma_asked_before(new_ids, p, i, next, list, out);
        }
        assert forall|p: int| 0 <= p < new_ids.len() && !out.contains(
            #[trigger] new_ids[p],
        ) implies out.len() == max by {
            assert(rest[p - 1] == new_ids[p]);
        }
        assert forall|p: int, i: int|
            #![trigger new_ids[p], out[i]]
            0 <= p < new_ids.len() && !out.contains(new_ids[p]) && list.len() <= i
                < out.len() implies new_ids.take(p).contains(out[i]) by {
            assert(rest[p - 1] == new_ids[p]);
            lemma_asked_before(new_ids, p, i, next, list, out);
        }
    }
}

/// What is added was asked for before a position if it is the first id, or was among the others.
proof fn lemma_asked_before(
    new_ids: Seq<u32>,
    p: int,
    i: int,
    next: Seq<u32>,
    list: Seq<u32>,
    out: Seq<u32>,
)
    requires
        0 < p < new_ids.len(),
        list.len() <= i < out.len(),
        next == list || next == list.push(new_ids[0]),
        forall|k: int| 0 <= k < next.len() ==> #[trigger] out[k] == next[k],
        i >= next.len() ==> new_ids.drop_first().take(p - 1).contains(out[i]),
    ensures
        new_ids.take(p).contains(out[i]),
{
    if i < next.len() {
        assert(out[i] == next[i]);
        assert(new_ids.take(p)[0] == out[i]);
    } else {
        let front = new_ids.drop_first().take(p - 1);
        let k = choose|k: int| 0 <= k < front.len() && front[k] == out[i];
        assert(new_ids.take(p)[k + 1] == out[i]);
    }
}

/// To append ids in two goes is to append them in one.
pub proof fn law_appends_add_up(list: Seq<u32>, first: Seq<u32>, second: Seq<u32>, max: nat)
    ensures
        append_unique(append_unique(list, first, max), second, max) == append_unique(
            list,
            first + second,
            max,
        ),
    decreases first.len(),
{
    let all = first + second;
    if first.len() == 0 {
        assert(all =~= second);
    } else if list.len() == max {
    } else {
        assert(all.drop_first() =~= first.drop_first() + second);
        assert(all[0] == first[0]);
        let next = if list.contains(first[0]) {
            list
        } else {
            list.push(first[0])
        };
        law_appends_add_up(next, first.drop_first(), second, max);
    }
}

/// An append writes nothing if and only if the list is full or has all the ids that were asked for.
/// What it writes, it writes under the key of the vector.
pub proof fn law_append_writes_what_is_new<C: StoreConfig>(
    provider: NeighborProvider<C>,
    vector_id: u32,
    list: Seq<u32>,
    new_ids: Seq<u32>,
)
    requires
        list.len() <= provider.degree(),
    ensures
        provider.append_change(vector_id, list, new_ids) is None <==> list.len()
            == provider.degree() || forall|p: int|
            0 <= p < new_ids.len() ==> list.contains(#[trigger] new_ids[p]),
        provider.append_change(vector_id, list, new_ids) matches Some(change) ==> change.key()
            == store::key_of(vector_id as nat),
{
    let max = provider.degree();
    let out = append_unique(list, new_ids, max);
    law_append_order(list, new_ids, max);
    law_append_adds_new_ids(list, new_ids, max);
    if out == list {
        if list.len() < max {
            assert forall|p: int| 0 <= p < new_ids.len() implies list.contains(
                #[trigger] new_ids[p],
            ) by {
                assert(out.contains(new_ids[p]));
            }
        }
    } else {
        if out.len() == list.len() {
            assert(out.take(list.len() as int) =~= out);
        }
        let i = list.len() as int;
        assert(new_ids.contains(out[i]) && !list.contains(out[i]));
        let p = choose|p: int| 0 <= p < new_ids.len() && new_ids[p] == out[i];
        assert(!list.contains(new_ids[p]));
    }
}

/// What a list is set to is all that the store holds for it: its ids in order, each as the
/// machine holds an id, and then their number.
pub proof fn law_bytes_of_a_set_list<C: StoreConfig>(
    provider: NeighborProvider<C>,
    contents: store::Contents,
    vector_id: u32,
    ids: Seq<u32>,
)
    requires
        ids.len() <= u32::MAX,
    ensures
        ({
            let value = store::lookup(
                provider.set_change(vector_id, ids).apply(contents),
                store::key_of(vector_id as nat),
            );
            &&& value is Some
            &&& value->0.len() == 4 * (ids.len() + 1)
            &&& forall|k: int|
                0 <= k < ids.len() ==> value->0.subrange(4 * k, 4 * k + 4)
                    == byte_image::native_bytes(#[trigger] ids[k] as nat, 4)
            &&& value->0.skip(4 * ids.len() as int) == byte_image::native_bytes(ids.len(), 4)
        }),
{
    let value = codec::stored_list(ids);
    byte_image::lemma_words_bytes_len(ids);
    byte_image::lemma_native_bytes_len(ids.len(), 4);
    assert forall|k: int| 0 <= k < ids.len() implies value.subrange(4 * k, 4 * k + 4)
        == byte_image::native_bytes(#[trigger] ids[k] as nat, 4) by {
        byte_image::law_words_are_in_place(ids, k);
        assert(value.subrange(4 * k, 4 * k + 4) =~= byte_image::words_bytes(ids).subrange(
            k * 4,
            k * 4 + 4,
        ));
    }
    assert(value.skip(4 * ids.len() as int) =~= byte_image::native_bytes(ids.len(), 4));
}

/// What an append writes has a slot for each neighbor that the vector may have and one more: the
/// grown list, zeros, and the length of the list in the last slot.
pub proof fn law_slots_of_an_appended_list<C: StoreConfig>(
    provider: NeighborProvider<C>,
    vector_id: u32,
    list: Seq<u32>,
    new_ids: Seq<u32>,
)
    requires
        provider.wf(),
        list.len() <= provider.degree(),
    ensures
        provider.append_change(vector_id, list, new_ids) matches Some(change) ==> (
        change matches store::Change::Put { key, value } && {
            let slots = byte_image::words_of::<u32>(value);
            let longer = append_unique(list, new_ids, provider.degree());
            &&& key == store::key_of(vector_id as nat)
            &&& byte_image::words_bytes(slots) == value
            &&& slots.len() == provider.degree() + 1
            &&& slots.last() == longer.len()
            &&& forall|k: int| 0 <= k < longer.len() ==> #[trigger] slots[k] == longer[k]
            &&& forall|k: int|
                longer.len() <= k < provider.degree() ==> #[trigger] slots[k] == 0
        }),
{
    let max = provider.degree();
    let longer = append_unique(list, new_ids, max);
    law_append_adds_new_ids(list, new_ids, max);
    byte_image::lemma_words_of_bytes(padded(longer, max + 1));
}

} // verus!
