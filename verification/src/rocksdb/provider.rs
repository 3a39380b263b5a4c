//! An index of full-precision vectors with optional quantized vectors and optional deletion.
//!
//! Vectors are known by one id inside and outside of the index.

use crate::backend::StoreConfig;
use crate::byte_image;
use crate::byte_image::Castable;
use crate::error::{IndexError, StoreCall};
use crate::kv_codec::neighbor as neighbor_codec;
use crate::neighbor_provider;
use crate::neighbor_provider::NeighborProvider;
use crate::quant_vector_provider;
use crate::quant_vector_provider::{Compression, PqShape, QuantVectorProvider};
use crate::rocksdb::params::GraphParams;
use crate::store;
use crate::store::StoreOp;
use crate::table_delete_provider::TableDeleteProviderAsync;
use crate::vector_provider;
use crate::vector_provider::VectorProvider;
use crate::write_plan;
use crate::write_plan::{StoreName, StoreWrite, WritePlan};
use diskann_vector::distance::Metric;
use vstd::prelude::*;
use vstd::slice::slice_to_vec;

verus! {

/// In place of a quant vector store: there are no quantized vectors.
#[derive(Clone, Copy, Debug)]
pub struct NoStore;

/// In place of a delete provider: vectors cannot be deleted.
#[derive(Clone, Copy, Debug)]
pub struct NoDeletes;

/// Asks for a table of marks of deleted vectors.
#[derive(Clone, Copy, Debug)]
pub struct TableBasedDeletes;

/// Selects the quant vector store.
pub trait CreateQuantProvider<C: StoreConfig>: Sized {
    /// The type of the created store.
    type Target;

    /// Whether `target` is what is created.
    spec fn creates(
        self,
        max_points: usize,
        frozen_points: usize,
        metric: Metric,
        config: C,
        target: Self::Target,
    ) -> bool;

    /// Creates a store for `max_points` vectors with an additional `frozen_points` at the end.
    fn create(
        self,
        max_points: usize,
        frozen_points: usize,
        metric: Metric,
        config: C,
    ) -> (target: Self::Target)
        requires
            max_points + frozen_points <= usize::MAX,
        ensures
            self.creates(max_points, frozen_points, metric, config, target),
    ;
}

impl<C: StoreConfig> CreateQuantProvider<C> for NoStore {
    type Target = NoStore;

    open spec fn creates(
        self,
        max_points: usize,
        frozen_points: usize,
        metric: Metric,
        config: C,
        target: NoStore,
    ) -> bool {
        target == self
    }

    fn create(
        self,
        _max_points: usize,
        _frozen_points: usize,
        _metric: Metric,
        _config: C,
    ) -> (target: NoStore) {
        self
    }
}

impl<C: StoreConfig> CreateQuantProvider<C> for PqShape {
    type Target = QuantVectorProvider<C>;

    open spec fn creates(
        self,
        max_points: usize,
        frozen_points: usize,
        metric: Metric,
        config: C,
        target: QuantVectorProvider<C>,
    ) -> bool {
        &&& target.count() == max_points + frozen_points
        &&& target.distance_metric() == metric
        &&& target.shape() == self
        &&& target.configuration() == config
    }

    fn create(
        self,
        max_points: usize,
        frozen_points: usize,
        metric: Metric,
        config: C,
    ) -> (target: QuantVectorProvider<C>) {
        QuantVectorProvider::new_with_config(metric, max_points, frozen_points, self, config)
    }
}

/// Selects the delete provider.
pub trait CreateDeleteProvider: Sized {
    /// The type of the created provider.
    type Target;

    /// Whether `target` is what is created.
    spec fn creates(self, max_size: usize, target: Self::Target) -> bool;

    /// Creates a provider for `max_size` vectors.
    fn create(self, max_size: usize) -> (target: Self::Target)
        ensures
            self.creates(max_size, target),
    ;
}

impl CreateDeleteProvider for NoDeletes {
    type Target = NoDeletes;

    open spec fn creates(self, max_size: usize, target: NoDeletes) -> bool {
        target == self
    }

    fn create(self, _max_size: usize) -> (target: NoDeletes) {
        self
    }
}

impl CreateDeleteProvider for TableBasedDeletes {
    type Target = TableDeleteProviderAsync;

    open spec fn creates(self, max_size: usize, target: TableDeleteProviderAsync) -> bool {
        target@ == Seq::new(max_size as nat, |i: int| false)
    }

    fn create(self, max_size: usize) -> (target: TableDeleteProviderAsync) {
        let target = TableDeleteProviderAsync::new(max_size);
        assert(target@ =~= Seq::new(max_size as nat, |i: int| false));
        target
    }
}

/// What an index is to be like.
#[derive(Debug)]
pub struct RocksdbProviderParameters<C> {
    /// The largest number of vectors, start points excluded.
    pub max_points: usize,
    /// The number of start points of a graph search, which is not zero.
    pub num_start_points: usize,
    /// The number of elements of a full-precision vector.
    pub dim: usize,
    /// The metric to use for distances.
    pub metric: Metric,
    /// How many full-precision vectors a fill fetches where there are quantized ones; all
    /// where nothing is said.
    pub max_fp_vecs_per_fill: Option<usize>,
    /// The largest number of neighbors of a vector.
    pub max_degree: u32,
    /// Where the full-precision vectors live.
    pub vector_provider_config: C,
    /// Where the quantized vectors live.
    pub quant_vector_provider_config: C,
    /// Where the neighbor lists live.
    pub neighbor_list_provider_config: C,
    /// Parameters of the graph that are saved with the index.
    pub graph_params: Option<GraphParams>,
}

impl<C: Clone> Clone for RocksdbProviderParameters<C> {
    fn clone(&self) -> (params: Self)
        ensures
            params.max_points == self.max_points,
            params.num_start_points == self.num_start_points,
            params.dim == self.dim,
            params.metric == self.metric,
            params.max_fp_vecs_per_fill == self.max_fp_vecs_per_fill,
            params.max_degree == self.max_degree,
            params.graph_params == self.graph_params,
            cloned(self.vector_provider_config, params.vector_provider_config),
            cloned(self.quant_vector_provider_config, params.quant_vector_provider_config),
            cloned(self.neighbor_list_provider_config, params.neighbor_list_provider_config),
    {
        RocksdbProviderParameters {
            max_points: self.max_points,
            num_start_points: self.num_start_points,
            dim: self.dim,
            metric: self.metric,
            max_fp_vecs_per_fill: self.max_fp_vecs_per_fill,
            max_degree: self.max_degree,
            vector_provider_config: self.vector_provider_config.clone(),
            quant_vector_provider_config: self.quant_vector_provider_config.clone(),
            neighbor_list_provider_config: self.neighbor_list_provider_config.clone(),
            graph_params: self.graph_params,
        }
    }
}

impl<C> RocksdbProviderParameters<C> {
    /// There is a start point, and the numbers are machine numbers.
    pub open spec fn wf(self) -> bool {
        &&& 1 <= self.num_start_points
        &&& self.max_points + self.num_start_points <= usize::MAX
        &&& self.max_degree < usize::MAX
    }

    /// Whether `rows` start points are as many as there are to be.
    pub fn check_rows(&self, rows: usize) -> (checked: Result<(), IndexError>)
        ensures
            match checked {
                Ok(()) => rows == self.num_start_points,
                Err(e) => rows != self.num_start_points && e == (IndexError::StartPointRows {
                    rows,
                    expected: self.num_start_points,
                }),
            },
    {
        if rows != self.num_start_points {
            return Err(IndexError::StartPointRows { rows, expected: self.num_start_points });
        }
        Ok(())
    }
}

/// An index with up to two layers of vectors: full-precision ones and quantized ones.
///
/// * `T`: The type of the elements of a full-precision vector.
/// * `Q`: The quant vector store, or [`NoStore`].
/// * `D`: The marks of deleted vectors, or [`NoDeletes`].
/// * `C`: The configuration of a store.
pub struct RocksdbProvider<T: Castable, Q, D, C: StoreConfig> {
    pub quant_vectors: Q,
    pub full_vectors: VectorProvider<T, C>,
    pub neighbor_provider: NeighborProvider<C>,
    pub deleted: D,
    /// How many full-precision vectors a fill fetches.
    pub max_fp_vecs_per_fill: usize,
    pub metric: Metric,
    pub graph_params: Option<GraphParams>,
}

impl<T: Castable, Q, D, C: StoreConfig> RocksdbProvider<T, Q, D, C> {
    /// Whether this is an index made to `params`, with nothing said of the quant vector store
    /// and of the marks of deleted vectors.
    pub open spec fn is_made_to(self, params: RocksdbProviderParameters<C>) -> bool {
        &&& self.full_vectors.points() == params.max_points
        &&& self.full_vectors.start_points() == params.num_start_points
        &&& self.full_vectors.vector_len() == params.dim
        &&& self.full_vectors.configuration() == params.vector_provider_config
        &&& self.neighbor_provider.degree() == params.max_degree
        &&& self.neighbor_provider.configuration() == params.neighbor_list_provider_config
        &&& self.max_fp_vecs_per_fill == match params.max_fp_vecs_per_fill {
            Some(n) => n,
            None => usize::MAX,
        }
        &&& self.metric == params.metric
        &&& self.graph_params == params.graph_params
    }

    /// A new, unpopulated index.
    pub fn new_empty<TQ, TD>(
        params: RocksdbProviderParameters<C>,
        quant_precursor: TQ,
        delete_precursor: TD,
    ) -> (provider: Self) where
        TQ: CreateQuantProvider<C, Target = Q>,
        TD: CreateDeleteProvider<Target = D>,

        requires
            params.wf(),
        ensures
            provider.is_made_to(params),
            quant_precursor.creates(
                params.max_points,
                params.num_start_points,
                params.metric,
                params.quant_vector_provider_config,
                provider.quant_vectors,
            ),
            delete_precursor.creates(
                (params.max_points + params.num_start_points) as usize,
                provider.deleted,
            ),
    {
        let num_start_points = params.num_start_points;
        RocksdbProvider {
            quant_vectors: quant_precursor.create(
                params.max_points,
                num_start_points,
                params.metric,
                params.quant_vector_provider_config,
            ),
            full_vectors: VectorProvider::new_with_config(
                params.max_points,
                params.dim,
                num_start_points,
                params.vector_provider_config,
            ),
            neighbor_provider: NeighborProvider::new_with_config(
                params.max_degree,
                params.neighbor_list_provider_config,
            ),
            deleted: delete_precursor.create(params.max_points + num_start_points),
            max_fp_vecs_per_fill: match params.max_fp_vecs_per_fill {
                Some(n) => n,
                None => usize::MAX,
            },
            metric: params.metric,
            graph_params: params.graph_params,
        }
    }

    /// The ids of the start points.
    pub fn starting_points(&self) -> (ids: Result<Vec<u32>, IndexError>)
        ensures
            match (
                ids,
                vector_provider::ids_between(
                    self.full_vectors.points(),
                    self.full_vectors.count(),
                ),
            ) {
                (Ok(v), Ok(list)) => v@ == list,
                (Err(e), Err(f)) => e == f,
                _ => false,
            },
    {
        self.full_vectors.starting_points()
    }

    /// All ids, those of start points included (even if they are deleted).
    ///
    /// The number of vectors is cut to the width of an id.
    pub fn iter(&self) -> (ids: std::ops::Range<u32>)
        ensures
            ids.start == 0,
            ids.end == self.full_vectors.count() as u32,
    {
        0..(self.full_vectors.total() as u32)
    }

    pub fn num_start_points(&self) -> (n: usize)
        ensures
            n == self.full_vectors.start_points(),
    {
        self.full_vectors.num_start_points()
    }

    /// The largest number of vectors, start points excluded.
    pub fn max_points(&self) -> (n: usize)
        ensures
            n == self.full_vectors.points(),
    {
        self.full_vectors.max_vectors()
    }

    /// The number of elements of a vector.
    pub fn dim(&self) -> (dim: usize)
        ensures
            dim == self.full_vectors.vector_len(),
    {
        self.full_vectors.dim()
    }

    /// The metric to use for distances.
    pub fn metric(&self) -> (metric: Metric)
        ensures
            metric == self.metric,
    {
        self.metric
    }

    /// The largest number of neighbors of a vector.
    pub fn max_degree(&self) -> (max_degree: u32)
        ensures
            max_degree == self.neighbor_provider.degree(),
    {
        self.neighbor_provider.max_degree()
    }

    pub fn neighbors(&self) -> (neighbors: &NeighborProvider<C>)
        ensures
            *neighbors == self.neighbor_provider,
    {
        &self.neighbor_provider
    }

    /// The id inside the index of the vector with this id outside of it: the same.
    pub fn to_internal_id(&self, gid: &u32) -> (id: u32)
        ensures
            id == *gid,
    {
        *gid
    }

    /// The id outside the index of the vector with this id inside of it: the same.
    pub fn to_external_id(&self, id: u32) -> (gid: u32)
        ensures
            gid == id,
    {
        id
    }
}

/// A struct that only this module can make, so that what takes one is not called from outside.
pub struct Hidden(());

impl<T: Castable, Q, D, C: StoreConfig> RocksdbProvider<T, Q, D, C> {
    /// The write that makes the neighbor list of `id` empty.
    pub open spec fn empty_list(self, id: u32) -> write_plan::StoreChange {
        write_plan::StoreChange {
            store: StoreName::Neighbors,
            change: self.neighbor_provider.set_change(id, seq![]),
        }
    }

    /// One step for each start point, in order: `step` of its id and its position. Nothing is
    /// done unless there is a row for each of them.
    pub open spec fn start_point_steps(
        self,
        rows: nat,
        step: spec_fn(u32, int) -> write_plan::Step,
    ) -> write_plan::Step {
        match vector_provider::ids_between(self.full_vectors.points(), self.full_vectors.count()) {
            Err(e) => write_plan::Step { changes: seq![], outcome: Err(e) },
            Ok(ids) => if rows != ids.len() {
                write_plan::Step {
                    changes: seq![],
                    outcome: Err(
                        IndexError::StartPointMismatch {
                            rows: rows as usize,
                            expected: ids.len() as usize,
                        },
                    ),
                }
            } else {
                write_plan::in_sequence(Seq::new(ids.len(), |k: int| step(ids[k], k)))
            },
        }
    }

    /// The write that makes the neighbor list of `id` empty.
    fn empty_list_write(&self, id: u32) -> (write: StoreWrite)
        ensures
            write@ == self.empty_list(id),
    {
        let empty: Vec<u32> = Vec::new();
        assert(empty@ =~= seq![]);
        match self.neighbor_provider.set_neighbors(id, empty.as_slice()) {
            Ok(op) => StoreWrite { store: StoreName::Neighbors, op },
            Err(_) => vstd::pervasive::unreached(),
        }
    }

    /// The ids of the start points, where there are `rows` of them.
    fn start_point_ids(&self, rows: usize) -> (ids: Result<Vec<u32>, IndexError>)
        ensures
            match (
                ids,
                vector_provider::ids_between(
                    self.full_vectors.points(),
                    self.full_vectors.count(),
                ),
            ) {
                (Ok(v), Ok(list)) => v@ == list && rows == list.len(),
                (Err(e), Ok(list)) => rows != list.len() && e == (IndexError::StartPointMismatch {
                    rows,
                    expected: list.len() as usize,
                }),
                (Err(e), Err(f)) => e == f,
                _ => false,
            },
    {
        let ids = self.full_vectors.starting_points()?;
        if rows != ids.len() {
            return Err(IndexError::StartPointMismatch { rows, expected: ids.len() });
        }
        Ok(ids)
    }
}

/// Sets the start points of an index.
pub trait StartPoint<T> {
    /// Whether there is a compressed vector for every start point, as the table makes them, where
    /// they are needed.
    spec fn accepts(&self, start_points: Seq<&[T]>, compressed: Seq<Compression>) -> bool;

    /// The writes that set the start points, and what is reported.
    spec fn start_point_writes(
        &self,
        start_points: Seq<&[T]>,
        compressed: Seq<Compression>,
    ) -> write_plan::Step;

    /// The writes that set the start points. `compressed` holds what each of them was
    /// compressed to, where there is a quant vector store.
    fn set_start_points(
        &self,
        hidden: Hidden,
        start_points: &[&[T]],
        compressed: &[Compression],
    ) -> (plan: WritePlan)
        requires
            self.accepts(start_points@, compressed@),
        ensures
            plan@ == self.start_point_writes(start_points@, compressed@),
    ;
}

impl<T: Castable, D, C: StoreConfig> RocksdbProvider<T, NoStore, D, C> {
    /// The writes that set one start point: its vector, and its empty neighbor list.
    pub open spec fn start_point_step(self, id: u32, row: Seq<T>) -> write_plan::Step {
        match self.full_vectors.set_outcome(id as usize, row) {
            Err(e) => write_plan::Step { changes: seq![], outcome: Err(e) },
            Ok(change) => write_plan::Step {
                changes: seq![
                    write_plan::StoreChange { store: StoreName::FullVectors, change },
                    self.empty_list(id),
                ],
                outcome: Ok(()),
            },
        }
    }
}

/// What is done after the first `k` of `steps`.
proof fn lemma_next_step(steps: Seq<write_plan::Step>, k: int)
    requires
        0 <= k < steps.len(),
    ensures
        write_plan::in_sequence(steps.skip(k)) == (if steps[k].outcome is Err {
            steps[k]
        } else {
            write_plan::Step {
                changes: steps[k].changes + write_plan::in_sequence(steps.skip(k + 1)).changes,
                outcome: write_plan::in_sequence(steps.skip(k + 1)).outcome,
            }
        }),
{
    assert(steps.skip(k)[0] == steps[k]);
    assert(steps.skip(k).drop_first() =~= steps.skip(k + 1));
}

impl<T: Castable, D, C: StoreConfig> StartPoint<T> for RocksdbProvider<T, NoStore, D, C> {
    open spec fn accepts(&self, start_points: Seq<&[T]>, compressed: Seq<Compression>) -> bool {
        true
    }

    open spec fn start_point_writes(
        &self,
        start_points: Seq<&[T]>,
        compressed: Seq<Compression>,
    ) -> write_plan::Step {
        self.start_point_steps(
            start_points.len(),
            |id: u32, k: int| self.start_point_step(id, start_points[k]@),
        )
    }

    fn set_start_points(
        &self,
        _hidden: Hidden,
        start_points: &[&[T]],
        compressed: &[Compression],
    ) -> (plan: WritePlan) {
        let ids = match self.start_point_ids(start_points.len()) {
            Ok(ids) => ids,
            Err(e) => {
                let plan = WritePlan::refused(e);
                assert(plan@.changes =~= seq![]);
                return plan;
            },
        };
        let ghost steps = Seq::new(
            ids@.len(),
            |k: int| self.start_point_step(ids@[k], start_points@[k]@),
        );
        let ghost all = write_plan::in_sequence(steps);
        proof {
            let f = |id: u32, k: int| self.start_point_step(id, start_points@[k]@);
            assert(steps =~= Seq::new(ids@.len(), |k: int| f(ids@[k], k)));
        }
        let mut writes: Vec<StoreWrite> = Vec::new();
        let mut k: usize = 0;
        assert(steps.skip(0) =~= steps);
        assert(all.changes =~= write_plan::changes_of(writes@) + all.changes);
        while k < ids.len()
            invariant
                k <= ids@.len() == steps.len() == start_points@.len(),
                forall|j: int|
                    0 <= j < steps.len() ==> #[trigger] steps[j] == self.start_point_step(
                        ids@[j],
                        start_points@[j]@,
                    ),
                all.changes == write_plan::changes_of(writes@) + write_plan::in_sequence(
                    steps.skip(k as int),
                ).changes,
                all.outcome == write_plan::in_sequence(steps.skip(k as int)).outcome,
                all == self.start_point_writes(start_points@, compressed@),
            decreases ids.len() - k,
        {
            proof {
                lemma_next_step(steps, k as int);
            }
            let ghost before = write_plan::changes_of(writes@);
            match self.full_vectors.set_vector_sync(ids[k] as usize, start_points[k]) {
                Ok(op) => {
                    writes.push(StoreWrite { store: StoreName::FullVectors, op });
                    writes.push(self.empty_list_write(ids[k]));
                    assert(write_plan::changes_of(writes@) =~= before + steps[k as int].changes);
                },
                Err(e) => {
                    assert(all.changes =~= before);
                    return WritePlan { writes, outcome: Err(e) };
                },
            }
            k += 1;
        }
        assert(all.changes =~= write_plan::changes_of(writes@));
        WritePlan { writes, outcome: Ok(()) }
    }
}

impl<T: Castable, D, C: StoreConfig> RocksdbProvider<T, QuantVectorProvider<C>, D, C> {
    /// The writes that set one start point: its vector, its quantized vector, and its empty
    /// neighbor list.
    pub open spec fn start_point_step(
        self,
        id: u32,
        row: Seq<T>,
        compressed: Compression,
    ) -> write_plan::Step {
        match self.full_vectors.set_outcome(id as usize, row) {
            Err(e) => write_plan::Step { changes: seq![], outcome: Err(e) },
            Ok(full) => {
                let full = write_plan::StoreChange { store: StoreName::FullVectors, change: full };
                match self.quant_vectors.set_outcome(id as usize, compressed) {
                    Err(e) => write_plan::Step { changes: seq![full], outcome: Err(e) },
                    Ok(quant) => write_plan::Step {
                        changes: seq![
                            full,
                            write_plan::StoreChange {
                                store: StoreName::QuantVectors,
                                change: quant,
                            },
                            self.empty_list(id),
                        ],
                        outcome: Ok(()),
                    },
                }
            },
        }
    }

    /// The write that stores what a vector was compressed to.
    fn quant_write(&self, i: usize, compressed: &Compression) -> (write: Result<
        StoreWrite,
        IndexError,
    >)
        requires
            i < self.quant_vectors.count() ==> quant_vector_provider::code_fits(
                *compressed,
                self.quant_vectors.shape(),
            ),
        ensures
            match (write, self.quant_vectors.set_outcome(i, *compressed)) {
                (Ok(write), Ok(change)) => write@ == (write_plan::StoreChange {
                    store: StoreName::QuantVectors,
                    change,
                }),
                (Err(e), Err(f)) => e == f,
                _ => false,
            },
    {
        match self.quant_vectors.set_vector_sync(i, compressed) {
            Ok(op) => Ok(StoreWrite { store: StoreName::QuantVectors, op }),
            Err(e) => Err(e),
        }
    }
}

impl<T: Castable, D, C: StoreConfig> StartPoint<T> for RocksdbProvider<
    T,
    QuantVectorProvider<C>,
    D,
    C,
> {
    open spec fn accepts(&self, start_points: Seq<&[T]>, compressed: Seq<Compression>) -> bool {
        &&& compressed.len() == start_points.len()
        &&& forall|k: int|
            0 <= k < compressed.len() ==> quant_vector_provider::code_fits(
                #[trigger] compressed[k],
                self.quant_vectors.shape(),
            )
    }

    open spec fn start_point_writes(
        &self,
        start_points: Seq<&[T]>,
        compressed: Seq<Compression>,
    ) -> write_plan::Step {
        self.start_point_steps(
            start_points.len(),
            |id: u32, k: int| self.start_point_step(id, start_points[k]@, compressed[k]),
        )
    }

    fn set_start_points(
        &self,
        _hidden: Hidden,
        start_points: &[&[T]],
        compressed: &[Compression],
    ) -> (plan: WritePlan) {
        let ids = match self.start_point_ids(start_points.len()) {
            Ok(ids) => ids,
            Err(e) => {
                let plan = WritePlan::refused(e);
                assert(plan@.changes =~= seq![]);
                return plan;
            },
        };
        let ghost steps = Seq::new(
            ids@.len(),
            |k: int| self.start_point_step(ids@[k], start_points@[k]@, compressed@[k]),
        );
        let ghost all = write_plan::in_sequence(steps);
        proof {
            let f = |id: u32, k: int|
                self.start_point_step(id, start_points@[k]@, compressed@[k]);
            assert(steps =~= Seq::new(ids@.len(), |k: int| f(ids@[k], k)));
        }
        let mut writes: Vec<StoreWrite> = Vec::new();
        let mut k: usize = 0;
        assert(steps.skip(0) =~= steps);
        assert(all.changes =~= write_plan::changes_of(writes@) + all.changes);
        while k < ids.len()
            invariant
                k <= ids@.len() == steps.len() == start_points@.len() == compressed@.len(),
                self.accepts(start_points@, compressed@),
                forall|j: int|
                    0 <= j < steps.len() ==> #[trigger] steps[j] == self.start_point_step(
                        ids@[j],
                        start_points@[j]@,
                        compressed@[j],
                    ),
                all.changes == write_plan::changes_of(writes@) + write_plan::in_sequence(
                    steps.skip(k as int),
                ).changes,
                all.outcome == write_plan::in_sequence(steps.skip(k as int)).outcome,
                all == self.start_point_writes(start_points@, compressed@),
            decreases ids.len() - k,
        {
            proof {
                lemma_next_step(steps, k as int);
            }
            let ghost before = write_plan::changes_of(writes@);
            match self.full_vectors.set_vector_sync(ids[k] as usize, start_points[k]) {
                Ok(op) => {
                    writes.push(StoreWrite { store: StoreName::FullVectors, op });
                },
                Err(e) => {
                    assert(all.changes =~= before);
                    return WritePlan { writes, outcome: Err(e) };
                },
            }
            match self.quant_write(ids[k] as usize, &compressed[k]) {
                Ok(write) => {
                    writes.push(write);
                },
                Err(e) => {
                    assert(all.changes =~= write_plan::changes_of(writes@));
                    return WritePlan { writes, outcome: Err(e) };
                },
            }
            writes.push(self.empty_list_write(ids[k]));
            assert(write_plan::changes_of(writes@) =~= before + steps[k as int].changes);
            k += 1;
        }
        assert(all.changes =~= write_plan::changes_of(writes@));
        WritePlan { writes, outcome: Ok(()) }
    }
}

impl<T: Castable, D, C: StoreConfig> RocksdbProvider<T, NoStore, D, C> {
    /// The writes that store `element` under `id`, and what is reported.
    pub open spec fn element_writes(self, id: u32, element: Seq<T>) -> write_plan::Step {
        match self.full_vectors.set_outcome(id as usize, element) {
            Err(e) => write_plan::Step { changes: seq![], outcome: Err(e) },
            Ok(change) => write_plan::Step {
                changes: seq![
                    write_plan::StoreChange { store: StoreName::FullVectors, change },
                ],
                outcome: Ok(()),
            },
        }
    }

    /// The writes that store `element` under `id`.
    pub fn set_element(&self, id: &u32, element: &[T]) -> (plan: WritePlan)
        ensures
            plan@ == self.element_writes(*id, element@),
    {
        let mut writes: Vec<StoreWrite> = Vec::new();
        assert(write_plan::changes_of(writes@) =~= seq![]);
        match self.full_vectors.set_vector_sync(*id as usize, element) {
            Ok(op) => {
                writes.push(StoreWrite { store: StoreName::FullVectors, op });
                assert(write_plan::changes_of(writes@) =~= self.element_writes(
                    *id,
                    element@,
                ).changes);
                WritePlan { writes, outcome: Ok(()) }
            },
            Err(e) => WritePlan { writes, outcome: Err(e) },
        }
    }
}

impl<T: Castable, D, C: StoreConfig> RocksdbProvider<T, QuantVectorProvider<C>, D, C> {
    /// The writes that store `element` under `id`, and what is reported: the quantized vector
    /// is written before the full-precision one is looked at.
    pub open spec fn element_writes(
        self,
        id: u32,
        element: Seq<T>,
        compressed: Compression,
    ) -> write_plan::Step {
        match self.quant_vectors.set_outcome(id as usize, compressed) {
            Err(e) => write_plan::Step { changes: seq![], outcome: Err(e) },
            Ok(quant) => {
                let quant = write_plan::StoreChange {
                    store: StoreName::QuantVectors,
                    change: quant,
                };
                match self.full_vectors.set_outcome(id as usize, element) {
                    Err(e) => write_plan::Step { changes: seq![quant], outcome: Err(e) },
                    Ok(full) => write_plan::Step {
                        changes: seq![
                            quant,
                            write_plan::StoreChange { store: StoreName::FullVectors, change: full },
                        ],
                        outcome: Ok(()),
                    },
                }
            },
        }
    }

    /// The writes that store `element` under `id`, in both vector stores. `compressed` is what
    /// `element` was compressed to.
    pub fn set_element(&self, id: &u32, element: &[T], compressed: &Compression) -> (plan:
        WritePlan)
        requires
            *id < self.quant_vectors.count() ==> quant_vector_provider::code_fits(
                *compressed,
                self.quant_vectors.shape(),
            ),
        ensures
            plan@ == self.element_writes(*id, element@, *compressed),
    {
        let mut writes: Vec<StoreWrite> = Vec::new();
        assert(write_plan::changes_of(writes@) =~= seq![]);
        let ghost all = self.element_writes(*id, element@, *compressed).changes;
        match self.quant_write(*id as usize, compressed) {
            Ok(write) => {
                writes.push(write);
            },
            Err(e) => {
                return WritePlan { writes, outcome: Err(e) };
            },
        }
        match self.full_vectors.set_vector_sync(*id as usize, element) {
            Ok(op) => {
                writes.push(StoreWrite { store: StoreName::FullVectors, op });
                assert(write_plan::changes_of(writes@) =~= all);
                WritePlan { writes, outcome: Ok(()) }
            },
            Err(e) => {
                assert(write_plan::changes_of(writes@) =~= all);
                WritePlan { writes, outcome: Err(e) }
            },
        }
    }
}

/// Whether a vector is part of the index.
#[derive(Clone, Copy, Debug, PartialEq, Eq, Structural)]
pub enum ElementStatus {
    Valid,
    Deleted,
}

/// The status of a vector, from the marks of deleted ones.
pub open spec fn status_of(marks: Seq<bool>, id: u32) -> ElementStatus {
    if marks[id as int] {
        ElementStatus::Deleted
    } else {
        ElementStatus::Valid
    }
}

/// The marks after the vector with this id is deleted.
pub open spec fn marks_after_delete(marks: Seq<bool>, id: u32) -> Seq<bool> {
    marks.update(id as int, true)
}

/// The marks after the vector with this id is released.
pub open spec fn marks_after_release(marks: Seq<bool>, id: u32) -> Seq<bool> {
    marks.update(id as int, false)
}

/// The marks after they are cleared.
pub open spec fn marks_after_clear(marks: Seq<bool>) -> Seq<bool> {
    Seq::new(marks.len(), |i: int| false)
}

impl<T: Castable, Q, C: StoreConfig> RocksdbProvider<T, Q, TableDeleteProviderAsync, C> {
    /// Whether this is `other` but for the marks of deleted vectors.
    pub open spec fn is_like(self, other: Self) -> bool {
        &&& self.quant_vectors == other.quant_vectors
        &&& self.full_vectors == other.full_vectors
        &&& self.neighbor_provider == other.neighbor_provider
        &&& self.max_fp_vecs_per_fill == other.max_fp_vecs_per_fill
        &&& self.metric == other.metric
        &&& self.graph_params == other.graph_params
    }

    /// Forgets which vectors were deleted.
    pub fn clear_delete_set(&mut self)
        ensures
            final(self).deleted@ == marks_after_clear(old(self).deleted@),
            final(self).is_like(*old(self)),
    {
        self.deleted.clear();
        assert(self.deleted@ =~= marks_after_clear(old(self).deleted@));
    }

    /// Marks the vector with this id as deleted.
    pub fn delete(&mut self, gid: &u32)
        requires
            *gid < old(self).deleted@.len(),
        ensures
            final(self).deleted@ == marks_after_delete(old(self).deleted@, *gid),
            final(self).is_like(*old(self)),
    {
        self.deleted.delete(*gid as usize);
    }

    /// Whether the vector with this id inside the index is part of it.
    pub fn status_by_internal_id(&self, id: u32) -> (status: ElementStatus)
        requires
            id < self.deleted@.len(),
        ensures
            status == status_of(self.deleted@, id),
    {
        if self.deleted.is_deleted(id as usize) {
            ElementStatus::Deleted
        } else {
            ElementStatus::Valid
        }
    }

    /// Whether the vector with this id outside the index is part of it.
    pub fn status_by_external_id(&self, gid: &u32) -> (status: ElementStatus)
        requires
            *gid < self.deleted@.len(),
        ensures
            status == status_of(self.deleted@, *gid),
    {
        self.status_by_internal_id(*gid)
    }

    /// The first write of a release: the neighbors of the vector are removed.
    pub fn release(&self, id: u32) -> (write: StoreWrite)
        ensures
            write@ == (write_plan::StoreChange {
                store: StoreName::Neighbors,
                change: store::Change::Delete { key: store::key_of(id as nat) },
            }),
    {
        StoreWrite { store: StoreName::Neighbors, op: self.neighbor_provider.delete_vector(id) }
    }

    /// The second write of a release, once the first was tried: where that succeeded, the vector
    /// is not deleted any more and its neighbors are reset to an empty list. Where it failed,
    /// nothing changes.
    pub fn release_removed(&mut self, id: u32, removed: Result<(), String>) -> (write: Result<
        StoreWrite,
        IndexError,
    >)
        requires
            id < old(self).deleted@.len(),
        ensures
            final(self).is_like(*old(self)),
            match (write, removed) {
                (Ok(write), Ok(())) => write@ == old(self).empty_list(id) && final(self).deleted@
                    == marks_after_release(old(self).deleted@, id),
                (Err(e), Err(detail)) => e == (IndexError::Backend {
                    backend: C::backend(),
                    call: StoreCall::Delete,
                    detail,
                }) && final(self).deleted@ == old(self).deleted@,
                _ => false,
            },
    {
        if let Err(detail) = removed {
            return Err(
                IndexError::Backend {
                    backend: C::backend_name(),
                    call: StoreCall::Delete,
                    detail,
                },
            );
        }
        self.deleted.undelete(id as usize);
        Ok(self.empty_list_write(id))
    }

    /// What a release reports once its second write was tried.
    pub fn release_reset(&self, id: u32, reset: Result<(), String>) -> (done: Result<
        (),
        IndexError,
    >)
        ensures
            match (done, reset) {
                (Ok(()), Ok(())) => true,
                (Err(e), Err(detail)) => e == (IndexError::ResetNeighbors {
                    id,
                    backend: C::backend(),
                    detail,
                }),
                _ => false,
            },
    {
        match reset {
            Ok(()) => Ok(()),
            Err(detail) => Err(
                IndexError::ResetNeighbors { id, backend: C::backend_name(), detail },
            ),
        }
    }
}

/// A new index, with the writes that populate its stores.
///
/// The writes are to be made in order, each only if the ones before it were made. The index may
/// be used once all of them are made.
pub struct NewProvider<T: Castable, Q, D, C: StoreConfig> {
    provider: RocksdbProvider<T, Q, D, C>,
    start_points: WritePlan,
    /// The number of ids, from the first on, whose neighbor lists are made empty.
    empty_lists: usize,
}

impl<T: Castable, Q, D, C: StoreConfig> NewProvider<T, Q, D, C> {
    /// The index.
    pub closed spec fn index(self) -> RocksdbProvider<T, Q, D, C> {
        self.provider
    }

    /// The writes, and what is reported once they are made.
    pub closed spec fn writes(self) -> write_plan::Step {
        write_plan::Step {
            changes: self.start_points@.changes + empty_lists(self.provider, self.empty_lists as nat),
            outcome: self.start_points@.outcome,
        }
    }

    /// The `k`-th write, if there are so many.
    pub fn write(&self, k: usize) -> (write: Option<StoreWrite>)
        ensures
            match write {
                Some(w) => k < self.writes().changes.len() && w@ == self.writes().changes[k as int],
                None => k >= self.writes().changes.len(),
            },
    {
        let num_first = self.start_points.writes.len();
        if k < num_first {
            let w = &self.start_points.writes[k];
            return Some(StoreWrite { store: w.store, op: copy_op(&w.op) });
        }
        if k - num_first < self.empty_lists {
            return Some(self.provider.empty_list_write((k - num_first) as u32));
        }
        None
    }

    /// What is reported once all writes are made: the index, or why it could not be set up.
    pub fn finish(self) -> (provider: Result<RocksdbProvider<T, Q, D, C>, IndexError>)
        ensures
            match (provider, self.writes().outcome) {
                (Ok(p), Ok(())) => p == self.index(),
                (Err(e), Err(f)) => e == f,
                _ => false,
            },
    {
        match self.start_points.outcome {
            Ok(()) => Ok(self.provider),
            Err(e) => Err(e),
        }
    }
}

/// A copy of a write.
fn copy_op(op: &StoreOp) -> (copy: StoreOp)
    ensures
        copy@ == op@,
{
    match op {
        StoreOp::Put { key, value } => StoreOp::Put {
            key: slice_to_vec(key.as_slice()),
            value: slice_to_vec(value.as_slice()),
        },
        StoreOp::Delete { key } => StoreOp::Delete { key: slice_to_vec(key.as_slice()) },
    }
}

/// The writes that make the neighbor lists of the first `n` ids empty.
pub open spec fn empty_lists<T: Castable, Q, D, C: StoreConfig>(
    provider: RocksdbProvider<T, Q, D, C>,
    n: nat,
) -> Seq<write_plan::StoreChange> {
    Seq::new(n, |i: int| provider.empty_list(i as u32))
}

/// The writes that populate the stores of a new index, and what is reported: its start points
/// are set, and then the neighbor lists of all other ids are made empty.
pub open spec fn population<
    T: Castable,
    Q,
    D,
    C: StoreConfig,
>(
    provider: RocksdbProvider<T, Q, D, C>,
    start_points: Seq<&[T]>,
    compressed: Seq<Compression>,
) -> write_plan::Step where RocksdbProvider<T, Q, D, C>: StartPoint<T> {
    let first = provider.start_point_writes(start_points, compressed);
    if first.outcome is Err {
        first
    } else {
        write_plan::Step {
            changes: first.changes + empty_lists(provider, provider.full_vectors.points()),
            outcome: first.outcome,
        }
    }
}

impl<T: Castable, Q, D, C: StoreConfig> RocksdbProvider<T, Q, D, C> where
    RocksdbProvider<T, Q, D, C>: StartPoint<T>,
 {
    /// A new index with its start points, and the writes that populate its stores.
    ///
    /// It is refused where the number of start points is not the one in `params`. `compressed`
    /// holds what each of them was compressed to, where there is a quant vector store.
    pub fn new<TQ, TD>(
        params: RocksdbProviderParameters<C>,
        start_points: &[&[T]],
        compressed: &[Compression],
        quant_precursor: TQ,
        delete_precursor: TD,
    ) -> (new: Result<NewProvider<T, Q, D, C>, IndexError>) where
        TQ: CreateQuantProvider<C, Target = Q>,
        TD: CreateDeleteProvider<Target = D>,

        requires
            params.wf(),
            forall|provider: Self|
                provider.is_made_to(params) && quant_precursor.creates(
                    params.max_points,
                    params.num_start_points,
                    params.metric,
                    params.quant_vector_provider_config,
                    provider.quant_vectors,
                ) ==> #[trigger] provider.accepts(start_points@, compressed@),
        ensures
            match new {
                Ok(new) => {
                    &&& start_points@.len() == params.num_start_points
                    &&& new.index().is_made_to(params)
                    &&& quant_precursor.creates(
                        params.max_points,
                        params.num_start_points,
                        params.metric,
                        params.quant_vector_provider_config,
                        new.index().quant_vectors,
                    )
                    &&& delete_precursor.creates(
                        (params.max_points + params.num_start_points) as usize,
                        new.index().deleted,
                    )
                    &&& new.writes() == population(new.index(), start_points@, compressed@)
                },
                Err(e) => start_points@.len() != params.num_start_points && e == (
                IndexError::StartPointRows {
                    rows: start_points@.len() as usize,
                    expected: params.num_start_points,
                }),
            },
    {
        params.check_rows(start_points.len())?;
        let max_points = params.max_points;
        let provider = Self::new_empty(params, quant_precursor, delete_precursor);
        let first = provider.set_start_points(Hidden(()), start_points, compressed);
        let empty_lists: usize = if first.outcome.is_ok() {
            max_points
        } else {
            0
        };
        let new = NewProvider { provider, start_points: first, empty_lists };
        assert(new.writes().changes =~= population(
            provider,
            start_points@,
            compressed@,
        ).changes);
        Ok(new)
    }
}

/// Whether the `k`-th of `rows` is stored as the `k`-th start point, and the list of every id is
/// empty.
pub open spec fn is_populated<T: Castable, Q, D, C: StoreConfig>(
    provider: RocksdbProvider<T, Q, D, C>,
    rows: Seq<&[T]>,
    stores: write_plan::Stores,
) -> bool {
    &&& forall|id: nat|
        id < provider.full_vectors.count() ==> provider.neighbor_provider.list_in(
            #[trigger] stores.read(StoreName::Neighbors, store::key_of(id)),
        ) == Ok::<Seq<u32>, IndexError>(seq![])
    &&& forall|k: nat|
        k < rows.len() ==> provider.full_vectors.vector_in(
            (provider.full_vectors.points() + k) as usize,
            stores.read(
                StoreName::FullVectors,
                store::key_of(provider.full_vectors.points() + k),
            ),
        ) == Ok::<Seq<T>, IndexError>(#[trigger] rows[k as int]@)
}

/// Whether a step sets the vector and the empty list of `id`, and concerns no other id.
spec fn sets_start_point<T: Castable, Q, D, C: StoreConfig>(
    provider: RocksdbProvider<T, Q, D, C>,
    id: u32,
    row: Seq<T>,
    changes: Seq<write_plan::StoreChange>,
) -> bool {
    let key = store::key_of(id as nat);
    &&& row.len() == provider.full_vectors.vector_len()
    &&& changes.len() >= 2
    &&& changes[0] == (write_plan::StoreChange {
        store: StoreName::FullVectors,
        change: provider.full_vectors.set_change(id as usize, row),
    })
    &&& changes.last() == provider.empty_list(id)
    &&& forall|m: int|
        0 <= m < changes.len() ==> {
            &&& (#[trigger] changes[m]).change.key() == key
            &&& changes[m].store == StoreName::FullVectors ==> m == 0
        }
}

/// What the steps for the start points and the empty lists of the other ids leave.
proof fn lemma_steps_populate<T: Castable, Q, D, C: StoreConfig>(
    provider: RocksdbProvider<T, Q, D, C>,
    ids: Seq<u32>,
    rows: Seq<&[T]>,
    steps: Seq<write_plan::Step>,
    stores: write_plan::Stores,
)
    requires
        provider.neighbor_provider.wf(),
        provider.full_vectors.start_points() >= 1,
        vector_provider::ids_between(provider.full_vectors.points(), provider.full_vectors.count())
            == Ok::<Seq<u32>, IndexError>(ids),
        ids.len() == rows.len() == steps.len(),
        write_plan::in_sequence(steps).outcome is Ok,
        forall|k: int|
            0 <= k < ids.len() ==> sets_start_point(
                provider,
                #[trigger] ids[k],
                rows[k]@,
                steps[k].changes,
            ),
    ensures
        is_populated(
            provider,
            rows,
            stores.after_all(
                write_plan::in_sequence(steps).changes + empty_lists(
                    provider,
                    provider.full_vectors.points(),
                ),
            ),
        ),
{
    let points = provider.full_vectors.points();
    let count = provider.full_vectors.count();
    let first = write_plan::in_sequence(steps).changes;
    let mid = stores.after_all(first);
    let empties = empty_lists(provider, points);
    let after = stores.after_all(first + empties);
    write_plan::lemma_after_concat(stores, first, empties);
    assert(count <= u32::MAX + 1);
    let none = neighbor_codec::stored_list::<u32>(seq![]);
    // Each start point's entries are left by its own step.
    assert forall|k: int| 0 <= k < ids.len() implies {
        &&& mid.read(StoreName::Neighbors, store::key_of(#[trigger] ids[k] as nat)) == Some(none)
        &&& mid.read(StoreName::FullVectors, store::key_of(ids[k] as nat)) == Some(
            byte_image::words_bytes(rows[k]@),
        )
    } by {
        let key = store::key_of(ids[k] as nat);
        let changes = steps[k].changes;
        assert(sets_start_point(provider, ids[k], rows[k]@, changes));
        assert forall|i: int, m: int|
            k < i < steps.len() && 0 <= m < steps[i].changes.len() implies (
        #[trigger] steps[i].changes[m]).change.key() != key by {
            assert(sets_start_point(provider, ids[i], rows[i]@, steps[i].changes));
            assert(ids[i] == points + i && ids[k] == points + k);
            store::lemma_keys_distinct(ids[i] as nat, ids[k] as nat);
        }
        assert forall|s: write_plan::Stores| (#[trigger] s.after_all(changes)).read(
            StoreName::Neighbors,
            key,
        ) == Some(none) by {
            write_plan::lemma_last_put(
                s,
                changes,
                changes.len() - 1,
                StoreName::Neighbors,
                key,
                none,
            );
        }
        write_plan::lemma_sequence_read(stores, steps, k, StoreName::Neighbors, key, Some(none));
        let value = byte_image::words_bytes(rows[k]@);
        assert forall|s: write_plan::Stores| (#[trigger] s.after_all(changes)).read(
            StoreName::FullVectors,
            key,
        ) == Some(value) by {
            write_plan::lemma_last_put(s, changes, 0, StoreName::FullVectors, key, value);
        }
        write_plan::lemma_sequence_read(
            stores,
            steps,
            k,
            StoreName::FullVectors,
            key,
            Some(value),
        );
    }
    // The empty lists of the other ids touch none of them.
    assert forall|id: nat| id < count implies provider.neighbor_provider.list_in(
        #[trigger] after.read(StoreName::Neighbors, store::key_of(id)),
    ) == Ok::<Seq<u32>, IndexError>(seq![]) by {
        let key = store::key_of(id);
        assert forall|i: int| 0 <= i < points && i != id implies (
        #[trigger] empties[i]).change.key() != key by {
            store::lemma_keys_distinct(i as nat, id);
        }
        if id < points {
            assert(empties[id as int] == provider.empty_list(id as u32));
            write_plan::lemma_last_put(mid, empties, id as int, StoreName::Neighbors, key, none);
        } else {
            assert(ids[id - points] == id);
            write_plan::lemma_read_is_kept(mid, empties, StoreName::Neighbors, key);
        }
        assert(after.read(StoreName::Neighbors, key) == Some(none));
        neighbor_provider::law_get_after_set(
            provider.neighbor_provider,
            Map::empty(),
            id as u32,
            seq![],
        );
    }
    assert forall|k: nat| k < rows.len() implies provider.full_vectors.vector_in(
        (points + k) as usize,
        after.read(StoreName::FullVectors, store::key_of(points + k)),
    ) == Ok::<Seq<T>, IndexError>(#[trigger] rows[k as int]@) by {
        assert(ids[k as int] == points + k);
        assert(sets_start_point(
            provider,
            ids[k as int],
            rows[k as int]@,
            steps[k as int].changes,
        ));
        write_plan::lemma_read_is_kept(
            mid,
            empties,
            StoreName::FullVectors,
            store::key_of(points + k),
        );
        vector_provider::law_get_after_set(
            provider.full_vectors,
            Map::empty(),
            ids[k as int] as usize,
            rows[k as int]@,
        );
    }
}

/// A step of a sequence that succeeds succeeds.
proof fn lemma_all_succeed(steps: Seq<write_plan::Step>, k: int)
    requires
        write_plan::in_sequence(steps).outcome is Ok,
        0 <= k < steps.len(),
    ensures
        steps[k].outcome is Ok,
    decreases k,
{
    if k > 0 {
        assert(steps.drop_first()[k - 1] == steps[k]);
        lemma_all_succeed(steps.drop_first(), k - 1);
    }
}

/// Once the writes of a new index without quantized vectors are made, its start points are
/// stored, and every id has an empty neighbor list. What its stores held before is no matter.
pub proof fn law_new_index_is_populated<T: Castable, D, C: StoreConfig>(
    provider: RocksdbProvider<T, NoStore, D, C>,
    start_points: Seq<&[T]>,
    compressed: Seq<Compression>,
    stores: write_plan::Stores,
)
    requires
        provider.neighbor_provider.wf(),
        provider.full_vectors.start_points() >= 1,
        population(provider, start_points, compressed).outcome is Ok,
    ensures
        is_populated(
            provider,
            start_points,
            stores.after_all(population(provider, start_points, compressed).changes),
        ),
{
    let ids = vector_provider::ids_between(
        provider.full_vectors.points(),
        provider.full_vectors.count(),
    )->Ok_0;
    let f = |id: u32, k: int| provider.start_point_step(id, start_points[k]@);
    let steps = Seq::new(ids.len(), |k: int| f(ids[k], k));
    assert forall|k: int| 0 <= k < ids.len() implies sets_start_point(
        provider,
        #[trigger] ids[k],
        start_points[k]@,
        steps[k].changes,
    ) by {
        lemma_all_succeed(steps, k);
        assert(steps[k] == provider.start_point_step(ids[k], start_points[k]@));
    }
    lemma_steps_populate(provider, ids, start_points, steps, stores);
}

/// Once the writes of a new index with quantized vectors are made, its start points are stored in
/// both vector stores, and every id has an empty neighbor list. What its stores held before is
/// no matter.
pub proof fn law_new_quantized_index_is_populated<T: Castable, D, C: StoreConfig>(
    provider: RocksdbProvider<T, QuantVectorProvider<C>, D, C>,
    start_points: Seq<&[T]>,
    compressed: Seq<Compression>,
    stores: write_plan::Stores,
)
    requires
        provider.neighbor_provider.wf(),
        provider.full_vectors.start_points() >= 1,
        provider.accepts(start_points, compressed),
        population(provider, start_points, compressed).outcome is Ok,
    ensures
        ({
            let after = stores.after_all(population(provider, start_points, compressed).changes);
            let points = provider.full_vectors.points();
            &&& is_populated(provider, start_points, after)
            &&& forall|k: nat|
                k < start_points.len() ==> (#[trigger] compressed[k as int] matches Ok(c)
                    && c.code matches Ok(code)
                    && quant_vector_provider::quant_vector_in::<C>(
                    (points + k) as usize,
                    after.read(StoreName::QuantVectors, store::key_of(points + k)),
                    provider.quant_vectors.shape().num_chunks,
                ) == Ok::<Seq<u8>, IndexError>(code@))
        }),
{
    let points = provider.full_vectors.points();
    let ids = vector_provider::ids_between(points, provider.full_vectors.count())->Ok_0;
    let f = |id: u32, k: int| provider.start_point_step(id, start_points[k]@, compressed[k]);
    let steps = Seq::new(ids.len(), |k: int| f(ids[k], k));
    assert forall|k: int| 0 <= k < ids.len() implies {
        &&& sets_start_point(provider, #[trigger] ids[k], start_points[k]@, steps[k].changes)
        &&& compressed[k] is Ok
        &&& compressed[k]->Ok_0.code is Ok
        &&& steps[k].changes.len() == 3
        &&& steps[k].changes[1] == (write_plan::StoreChange {
            store: StoreName::QuantVectors,
            change: provider.quant_vectors.set_change(
                ids[k] as usize,
                compressed[k]->Ok_0.code->Ok_0@,
            ),
        })
    } by {
        lemma_all_succeed(steps, k);
        assert(steps[k] == provider.start_point_step(ids[k], start_points[k]@, compressed[k]));
    }
    lemma_steps_populate(provider, ids, start_points, steps, stores);
    let first = write_plan::in_sequence(steps).changes;
    let empties = empty_lists(provider, points);
    write_plan::lemma_after_concat(stores, first, empties);
    let after = stores.after_all(population(provider, start_points, compressed).changes);
    assert forall|k: nat| k < start_points.len() implies (#[trigger] compressed[k as int] matches Ok(
        c,
    ) && c.code matches Ok(code) && quant_vector_provider::quant_vector_in::<C>(
        (points + k) as usize,
        after.read(StoreName::QuantVectors, store::key_of(points + k)),
        provider.quant_vectors.shape().num_chunks,
    ) == Ok::<Seq<u8>, IndexError>(code@)) by {
        let j = k as int;
        let key = store::key_of(points + k);
        let code = compressed[j]->Ok_0.code->Ok_0@;
        assert(sets_start_point(provider, ids[j], start_points[j]@, steps[j].changes));
        assert(ids[j] == points + k);
        assert forall|i: int, m: int|
            j < i < steps.len() && 0 <= m < steps[i].changes.len() implies (
        #[trigger] steps[i].changes[m]).change.key() != key by {
            assert(sets_start_point(provider, ids[i], start_points[i]@, steps[i].changes));
            assert(ids[i] == points + i);
            store::lemma_keys_distinct(ids[i] as nat, ids[j] as nat);
        }
        assert forall|s: write_plan::Stores| (#[trigger] s.after_all(steps[j].changes)).read(
            StoreName::QuantVectors,
            key,
        ) == Some(code) by {
            write_plan::lemma_last_put(
                s,
                steps[j].changes,
                1,
                StoreName::QuantVectors,
                key,
                code,
            );
        }
        write_plan::lemma_sequence_read(
            stores,
            steps,
            j,
            StoreName::QuantVectors,
            key,
            Some(code),
        );
        write_plan::lemma_read_is_kept(
            stores.after_all(first),
            empties,
            StoreName::QuantVectors,
            key,
        );
        assert(steps[j] == provider.start_point_step(ids[j], start_points[j]@, compressed[j]));
        lemma_all_succeed(steps, j);
    }
}

/// A deleted vector is reported as deleted until it is released or the marks are cleared, and
/// the status of every other vector stays as it was.
pub proof fn law_status(marks: Seq<bool>, id: u32, other: u32)
    requires
        id < marks.len(),
        other < marks.len(),
    ensures
        status_of(marks_after_delete(marks, id), id) == ElementStatus::Deleted,
        status_of(marks_after_release(marks, id), id) == ElementStatus::Valid,
        status_of(marks_after_clear(marks), id) == ElementStatus::Valid,
        marks_after_delete(marks, id).len() == marks.len(),
        marks_after_release(marks, id).len() == marks.len(),
        marks_after_clear(marks).len() == marks.len(),
        other != id ==> status_of(marks_after_delete(marks, id), other) == status_of(marks, other),
        other != id ==> status_of(marks_after_release(marks, id), other) == status_of(
            marks,
            other,
        ),
{
}

/// After a release the neighbor list of the vector is empty, whatever it was, and the lists of
/// other vectors are as before.
pub proof fn law_release_resets_the_list<T: Castable, Q, D, C: StoreConfig>(
    provider: RocksdbProvider<T, Q, D, C>,
    stores: write_plan::Stores,
    id: u32,
    other: u32,
)
    requires
        provider.neighbor_provider.wf(),
    ensures
        ({
            let removed = write_plan::StoreChange {
                store: StoreName::Neighbors,
                change: store::Change::Delete { key: store::key_of(id as nat) },
            };
            let after = stores.after(removed).after(provider.empty_list(id));
            &&& provider.neighbor_provider.list_in(
                after.read(StoreName::Neighbors, store::key_of(id as nat)),
            ) == Ok::<Seq<u32>, IndexError>(seq![])
            &&& other != id ==> after.read(StoreName::Neighbors, store::key_of(other as nat))
                == stores.read(StoreName::Neighbors, store::key_of(other as nat))
        }),
{
    store::lemma_keys_distinct(id as nat, other as nat);
    neighbor_provider::law_get_after_set(provider.neighbor_provider, Map::empty(), id, seq![]);
}

/// An element that was set is the vector that is read.
pub proof fn law_get_after_set_element<T: Castable, D, C: StoreConfig>(
    provider: RocksdbProvider<T, NoStore, D, C>,
    stores: write_plan::Stores,
    id: u32,
    element: Seq<T>,
)
    requires
        provider.element_writes(id, element).outcome is Ok,
    ensures
        provider.full_vectors.vector_in(
            id as usize,
            stores.after_all(provider.element_writes(id, element).changes).read(
                StoreName::FullVectors,
                store::key_of(id as nat),
            ),
        ) == Ok::<Seq<T>, IndexError>(element),
{
    let changes = provider.element_writes(id, element).changes;
    let key = store::key_of(id as nat);
    let value = byte_image::words_bytes(element);
    write_plan::lemma_last_put(stores, changes, 0, StoreName::FullVectors, key, value);
    vector_provider::law_get_after_set(provider.full_vectors, Map::empty(), id as usize, element);
}

/// An element that was set is the vector that is read, and what it was compressed to is the
/// quantized vector.
pub proof fn law_get_after_set_quantized_element<T: Castable, D, C: StoreConfig>(
    provider: RocksdbProvider<T, QuantVectorProvider<C>, D, C>,
    stores: write_plan::Stores,
    id: u32,
    element: Seq<T>,
    compressed: Compression,
)
    requires
        quant_vector_provider::code_fits(compressed, provider.quant_vectors.shape()),
        provider.element_writes(id, element, compressed).outcome is Ok,
    ensures
        ({
            let after = stores.after_all(provider.element_writes(id, element, compressed).changes);
            let key = store::key_of(id as nat);
            &&& provider.full_vectors.vector_in(
                id as usize,
                after.read(StoreName::FullVectors, key),
            ) == Ok::<Seq<T>, IndexError>(element)
            &&& compressed matches Ok(c) && c.code matches Ok(code)
                && quant_vector_provider::quant_vector_in::<C>(
                id as usize,
                after.read(StoreName::QuantVectors, key),
                provider.quant_vectors.shape().num_chunks,
            ) == Ok::<Seq<u8>, IndexError>(code@)
        }),
{
    let changes = provider.element_writes(id, element, compressed).changes;
    let key = store::key_of(id as nat);
    let value = byte_image::words_bytes(element);
    write_plan::lemma_last_put(stores, changes, 1, StoreName::FullVectors, key, value);
    write_plan::lemma_last_put(
        stores,
        changes,
        0,
        StoreName::QuantVectors,
        key,
        compressed->Ok_0.code->Ok_0@,
    );
    vector_provider::law_get_after_set(provider.full_vectors, Map::empty(), id as usize, element);
}

/// Setting an element concerns nothing but the vector of its id: all other vectors and all
/// neighbor lists, that of the id included, are read as before. Where the element is refused,
/// everything is.
pub proof fn law_set_element_keeps_the_rest<T: Castable, D, C: StoreConfig>(
    provider: RocksdbProvider<T, NoStore, D, C>,
    stores: write_plan::Stores,
    id: u32,
    element: Seq<T>,
    name: StoreName,
    key: Seq<u8>,
)
    requires
        !(name == StoreName::FullVectors && key == store::key_of(id as nat))
            || provider.element_writes(id, element).outcome is Err,
    ensures
        stores.after_all(provider.element_writes(id, element).changes).read(name, key)
            == stores.read(name, key),
{
    write_plan::lemma_read_is_kept(
        stores,
        provider.element_writes(id, element).changes,
        name,
        key,
    );
}

/// Setting an element concerns nothing but the vector and the quantized vector of its id: all
/// other vectors and all neighbor lists, that of the id included, are read as before. Where it is
/// the full-precision vector that is refused, the quantized one is stored all the same; where the
/// quantized one is refused, nothing changes.
pub proof fn law_set_quantized_element_keeps_the_rest<T: Castable, D, C: StoreConfig>(
    provider: RocksdbProvider<T, QuantVectorProvider<C>, D, C>,
    stores: write_plan::Stores,
    id: u32,
    element: Seq<T>,
    compressed: Compression,
    name: StoreName,
    key: Seq<u8>,
)
    ensures
        ({
            let writes = provider.element_writes(id, element, compressed);
            let after = stores.after_all(writes.changes);
            let own = key == store::key_of(id as nat);
            let quantized = provider.quant_vectors.set_outcome(id as usize, compressed);
            &&& !(own && (name == StoreName::FullVectors || name == StoreName::QuantVectors))
                ==> after.read(name, key) == stores.read(name, key)
            &&& writes.outcome is Err && name == StoreName::FullVectors ==> after.read(name, key)
                == stores.read(name, key)
            &&& quantized is Err ==> after.read(name, key) == stores.read(name, key)
            &&& quantized is Ok && own && name == StoreName::QuantVectors ==> (
            compressed matches Ok(c) && c.code matches Ok(code) && after.read(name, key) == Some(
                code@,
            ))
        }),
{
    let writes = provider.element_writes(id, element, compressed);
    let own_key = store::key_of(id as nat);
    let quantized = provider.quant_vectors.set_outcome(id as usize, compressed);
    if quantized is Ok && key == own_key && name == StoreName::QuantVectors {
        write_plan::lemma_last_put(
            stores,
            writes.changes,
            0,
            name,
            key,
            compressed->Ok_0.code->Ok_0@,
        );
    } else if !(key == own_key && name == StoreName::FullVectors) || writes.outcome is Err {
        write_plan::lemma_read_is_kept(stores, writes.changes, name, key);
    }
}

/// When an element is set, and why it is not: it has another dimension than the index, or its id
/// is beyond the vectors of the index.
pub proof fn law_which_elements_are_set<T: Castable, D, C: StoreConfig>(
    provider: RocksdbProvider<T, NoStore, D, C>,
    id: u32,
    element: Seq<T>,
)
    ensures
        provider.element_writes(id, element).outcome == (if element.len()
            != provider.full_vectors.vector_len() {
            Err::<(), IndexError>(IndexError::VectorDimension)
        } else if id >= provider.full_vectors.points() + provider.full_vectors.start_points() {
            Err(IndexError::VectorIdOutOfRange)
        } else {
            Ok(())
        }),
{
}

/// When an element is set in both vector stores, and why it is not: what refuses its quantized
/// vector comes before what refuses its full-precision one.
pub proof fn law_which_quantized_elements_are_set<T: Castable, D, C: StoreConfig>(
    provider: RocksdbProvider<T, QuantVectorProvider<C>, D, C>,
    id: u32,
    element: Seq<T>,
    compressed: Compression,
)
    ensures
        ({
            let outcome = provider.element_writes(id, element, compressed).outcome;
            match provider.quant_vectors.set_outcome(id as usize, compressed) {
                Err(e) => outcome == Err::<(), IndexError>(e),
                Ok(_) => outcome == (if element.len() != provider.full_vectors.vector_len() {
                    Err::<(), IndexError>(IndexError::VectorDimension)
                } else if id >= provider.full_vectors.points()
                    + provider.full_vectors.start_points() {
                    Err(IndexError::VectorIdOutOfRange)
                } else {
                    Ok(())
                }),
            }
        }),
{
}

/// A release concerns nothing but the neighbor list of its id.
pub proof fn law_release_keeps_the_rest<T: Castable, Q, D, C: StoreConfig>(
    provider: RocksdbProvider<T, Q, D, C>,
    stores: write_plan::Stores,
    id: u32,
    name: StoreName,
    key: Seq<u8>,
)
    requires
        !(name == StoreName::Neighbors && key == store::key_of(id as nat)),
    ensures
        stores.after(
            write_plan::StoreChange {
                store: StoreName::Neighbors,
                change: store::Change::Delete { key: store::key_of(id as nat) },
            },
        ).after(provider.empty_list(id)).read(name, key) == stores.read(name, key),
{
}

/// The changes of steps in sequence are changes of these steps.
proof fn lemma_changes_of_steps(steps: Seq<write_plan::Step>, m: int) -> (k: int)
    requires
        0 <= m < write_plan::in_sequence(steps).changes.len(),
    ensures
        0 <= k < steps.len(),
        steps[k].changes.contains(write_plan::in_sequence(steps).changes[m]),
    decreases steps.len(),
{
    let all = write_plan::in_sequence(steps).changes;
    let first = steps[0].changes;
    if m < first.len() {
        assert(first[m] == all[m]);
        0
    } else {
        let rest = steps.drop_first();
        let k = lemma_changes_of_steps(rest, m - first.len());
        assert(write_plan::in_sequence(rest).changes[m - first.len()] == all[m]);
        assert(steps[k + 1] == rest[k]);
        k + 1
    }
}

/// Populating a new index concerns nothing but the vectors of its start points and the neighbor
/// lists of its ids, whether it succeeds or not: vectors of other ids are read as before.
pub proof fn law_population_keeps_the_rest<T: Castable, D, C: StoreConfig>(
    provider: RocksdbProvider<T, NoStore, D, C>,
    start_points: Seq<&[T]>,
    compressed: Seq<Compression>,
    stores: write_plan::Stores,
    name: StoreName,
    key: Seq<u8>,
)
    requires
        provider.full_vectors.count() <= usize::MAX,
        provider.full_vectors.start_points() >= 1,
        name == StoreName::Neighbors ==> forall|id: nat|
            id < provider.full_vectors.count() ==> key != #[trigger] store::key_of(id),
        name == StoreName::FullVectors ==> forall|id: nat|
            provider.full_vectors.points() <= id < provider.full_vectors.count() ==> key
                != #[trigger] store::key_of(id),
    ensures
        stores.after_all(population(provider, start_points, compressed).changes).read(name, key)
            == stores.read(name, key),
{
    let points = provider.full_vectors.points();
    let count = provider.full_vectors.count();
    let first = provider.start_point_writes(start_points, compressed);
    let empties = empty_lists(provider, points);
    assert forall|m: int| 0 <= m < first.changes.len() implies !((#[trigger] first.changes[m]).store
        == name && first.changes[m].change.key() == key) by {
        let ids = vector_provider::ids_between(points, count)->Ok_0;
        let f = |id: u32, k: int| provider.start_point_step(id, start_points[k]@);
        let steps = Seq::new(ids.len(), |k: int| f(ids[k], k));
        assert(first == write_plan::in_sequence(steps));
        let k = lemma_changes_of_steps(steps, m);
        vector_provider::law_ids_of_start_points(points, count);
        assert(ids[k] as nat == points + k);
        assert(steps[k] == provider.start_point_step(ids[k], start_points[k]@));
        assert(key != store::key_of(ids[k] as nat) || name == StoreName::QuantVectors);
    }
    write_plan::lemma_read_is_kept(stores, first.changes, name, key);
    if first.outcome is Ok {
        write_plan::lemma_after_concat(stores, first.changes, empties);
        vector_provider::law_ids_of_start_points(points, count);
        assert forall|i: int| 0 <= i < empties.len() implies !((#[trigger] empties[i]).store == name
            && empties[i].change.key() == key) by {
            assert(i as u32 as nat == i);
            assert(key != store::key_of(i as nat) || name != StoreName::Neighbors);
        }
        write_plan::lemma_read_is_kept(stores.after_all(first.changes), empties, name, key);
    }
}

/// Populating a new quantized index concerns nothing but the vectors and quantized vectors of its
/// start points and the neighbor lists of its ids, whether it succeeds or not.
pub proof fn law_quantized_population_keeps_the_rest<T: Castable, D, C: StoreConfig>(
    provider: RocksdbProvider<T, QuantVectorProvider<C>, D, C>,
    start_points: Seq<&[T]>,
    compressed: Seq<Compression>,
    stores: write_plan::Stores,
    name: StoreName,
    key: Seq<u8>,
)
    requires
        provider.full_vectors.count() <= usize::MAX,
        provider.full_vectors.start_points() >= 1,
        name == StoreName::Neighbors ==> forall|id: nat|
            id < provider.full_vectors.count() ==> key != #[trigger] store::key_of(id),
        name != StoreName::Neighbors ==> forall|id: nat|
            provider.full_vectors.points() <= id < provider.full_vectors.count() ==> key
                != #[trigger] store::key_of(id),
    ensures
        stores.after_all(population(provider, start_points, compressed).changes).read(name, key)
            == stores.read(name, key),
{
    let points = provider.full_vectors.points();
    let count = provider.full_vectors.count();
    let first = provider.start_point_writes(start_points, compressed);
    let empties = empty_lists(provider, points);
    assert forall|m: int| 0 <= m < first.changes.len() implies !((#[trigger] first.changes[m]).store
        == name && first.changes[m].change.key() == key) by {
        let ids = vector_provider::ids_between(points, count)->Ok_0;
        let f = |id: u32, k: int| provider.start_point_step(id, start_points[k]@, compressed[k]);
        let steps = Seq::new(ids.len(), |k: int| f(ids[k], k));
        assert(first == write_plan::in_sequence(steps));
        let k = lemma_changes_of_steps(steps, m);
        vector_provider::law_ids_of_start_points(points, count);
        assert(ids[k] as nat == points + k);
        assert(steps[k] == provider.start_point_step(ids[k], start_points[k]@, compressed[k]));
        assert(key != store::key_of(ids[k] as nat));
    }
    write_plan::lemma_read_is_kept(stores, first.changes, name, key);
    if first.outcome is Ok {
        write_plan::lemma_after_concat(stores, first.changes, empties);
        vector_provider::law_ids_of_start_points(points, count);
        assert forall|i: int| 0 <= i < empties.len() implies !((#[trigger] empties[i]).store == name
            && empties[i].change.key() == key) by {
            assert(i as u32 as nat == i);
            assert(key != store::key_of(i as nat) || name != StoreName::Neighbors);
        }
        write_plan::lemma_read_is_kept(stores.after_all(first.changes), empties, name, key);
    }
}

/// Steps that succeed one by one succeed in sequence.
proof fn lemma_sequence_succeeds(steps: Seq<write_plan::Step>)
    requires
        forall|k: int| 0 <= k < steps.len() ==> (#[trigger] steps[k]).outcome is Ok,
    ensures
        write_plan::in_sequence(steps).outcome is Ok,
    decreases steps.len(),
{
    if steps.len() > 0 {
        assert(steps[0].outcome is Ok);
        let rest = steps.drop_first();
        assert forall|k: int| 0 <= k < rest.len() implies (#[trigger] rest[k]).outcome is Ok by {
            assert(rest[k] == steps[k + 1]);
        }
        lemma_sequence_succeeds(rest);
    }
}

/// A new index is populated if and only if there is a row for each of its start points, each of the
/// dimension of the index, and its last start point has an id.
pub proof fn law_when_a_new_index_is_populated<T: Castable, D, C: StoreConfig>(
    provider: RocksdbProvider<T, NoStore, D, C>,
    start_points: Seq<&[T]>,
    compressed: Seq<Compression>,
)
    requires
        provider.full_vectors.count() <= usize::MAX,
        provider.full_vectors.start_points() >= 1,
    ensures
        population(provider, start_points, compressed).outcome is Ok <==> {
            &&& provider.full_vectors.count() - 1 <= u32::MAX
            &&& start_points.len() == provider.full_vectors.start_points()
            &&& forall|k: int|
                0 <= k < start_points.len() ==> (#[trigger] start_points[k])@.len()
                    == provider.full_vectors.vector_len()
        },
{
    let points = provider.full_vectors.points();
    let count = provider.full_vectors.count();
    vector_provider::law_ids_of_start_points(points, count);
    if let Ok(ids) = vector_provider::ids_between(points, count) {
        if start_points.len() == ids.len() {
            let f = |id: u32, k: int| provider.start_point_step(id, start_points[k]@);
            let steps = Seq::new(ids.len(), |k: int| f(ids[k], k));
            assert forall|k: int| 0 <= k < steps.len() implies ((#[trigger] steps[k]).outcome is Ok
                <==> start_points[k]@.len() == provider.full_vectors.vector_len()) by {
                assert(ids[k] as int == points + k);
                assert(steps[k] == provider.start_point_step(ids[k], start_points[k]@));
            }
            if write_plan::in_sequence(steps).outcome is Ok {
                assert forall|k: int| 0 <= k < start_points.len() implies (
                #[trigger] start_points[k])@.len() == provider.full_vectors.vector_len() by {
                    lemma_all_succeed(steps, k);
                    assert(steps[k].outcome is Ok);
                }
            }
            if forall|k: int|
                0 <= k < start_points.len() ==> (#[trigger] start_points[k])@.len()
                    == provider.full_vectors.vector_len() {
                assert forall|k: int| 0 <= k < steps.len() implies (
                #[trigger] steps[k]).outcome is Ok by {
                    assert(start_points[k]@.len() == provider.full_vectors.vector_len());
                }
                lemma_sequence_succeeds(steps);
            }
        }
    }
}

/// A new quantized index is populated if and only if, besides, each of its start points was
/// compressed, from the dimension of the table, and its id is one of the quant vector store.
pub proof fn law_when_a_new_quantized_index_is_populated<T: Castable, D, C: StoreConfig>(
    provider: RocksdbProvider<T, QuantVectorProvider<C>, D, C>,
    start_points: Seq<&[T]>,
    compressed: Seq<Compression>,
)
    requires
        provider.full_vectors.count() <= usize::MAX,
        provider.full_vectors.start_points() >= 1,
        provider.quant_vectors.count() == provider.full_vectors.count(),
    ensures
        population(provider, start_points, compressed).outcome is Ok <==> {
            &&& provider.full_vectors.count() - 1 <= u32::MAX
            &&& start_points.len() == provider.full_vectors.start_points()
            &&& forall|k: int|
                0 <= k < start_points.len() ==> (#[trigger] start_points[k])@.len()
                    == provider.full_vectors.vector_len() && (compressed[k] matches Ok(c)
                    && c.vf32_len == provider.quant_vectors.shape().dim && c.code is Ok)
        },
{
    let points = provider.full_vectors.points();
    let count = provider.full_vectors.count();
    vector_provider::law_ids_of_start_points(points, count);
    if let Ok(ids) = vector_provider::ids_between(points, count) {
        if start_points.len() == ids.len() {
            let f = |id: u32, k: int|
                provider.start_point_step(id, start_points[k]@, compressed[k]);
            let steps = Seq::new(ids.len(), |k: int| f(ids[k], k));
            assert forall|k: int| 0 <= k < steps.len() implies ((#[trigger] steps[k]).outcome is Ok
                <==> start_points[k]@.len() == provider.full_vectors.vector_len() && (
            compressed[k] matches Ok(c) && c.vf32_len == provider.quant_vectors.shape().dim
                && c.code is Ok)) by {
                assert(ids[k] as int == points + k);
                assert(steps[k] == provider.start_point_step(
                    ids[k],
                    start_points[k]@,
                    compressed[k],
                ));
            }
            if write_plan::in_sequence(steps).outcome is Ok {
                assert forall|k: int| 0 <= k < start_points.len() implies (
                #[trigger] start_points[k])@.len() == provider.full_vectors.vector_len() && (
                compressed[k] matches Ok(c) && c.vf32_len == provider.quant_vectors.shape().dim
                    && c.code is Ok) by {
                    lemma_all_succeed(steps, k);
                    assert(steps[k].outcome is Ok);
                }
            }
            if forall|k: int|
                0 <= k < start_points.len() ==> (#[trigger] start_points[k])@.len()
                    == provider.full_vectors.vector_len() && (compressed[k] matches Ok(c)
                    && c.vf32_len == provider.quant_vectors.shape().dim && c.code is Ok) {
                assert forall|k: int| 0 <= k < steps.len() implies (
                #[trigger] steps[k]).outcome is Ok by {
                    assert(start_points[k]@.len() == provider.full_vectors.vector_len());
                }
                lemma_sequence_succeeds(steps);
            }
        }
    }
}

/// The failure of steps in sequence is the failure of the first of them that fails.
proof fn lemma_failure_of_steps(steps: Seq<write_plan::Step>) -> (k: int)
    requires
        write_plan::in_sequence(steps).outcome is Err,
    ensures
        0 <= k < steps.len(),
        steps[k].outcome == write_plan::in_sequence(steps).outcome,
        forall|j: int| 0 <= j < k ==> (#[trigger] steps[j]).outcome is Ok,
    decreases steps.len(),
{
    if steps[0].outcome is Err {
        0
    } else {
        let rest = steps.drop_first();
        let k = lemma_failure_of_steps(rest);
        assert(steps[k + 1] == rest[k]);
        assert forall|j: int| 0 <= j < k + 1 implies (#[trigger] steps[j]).outcome is Ok by {
            if j > 0 {
                assert(rest[j - 1] == steps[j]);
            }
        }
        k + 1
    }
}

/// Why a new index is not populated: a start point that has no id before a number of rows that is
/// not that of the start points, and both before a row of another dimension than the index. The
/// first two leave the stores as they were.
pub proof fn law_why_a_new_index_is_not_populated<T: Castable, D, C: StoreConfig>(
    provider: RocksdbProvider<T, NoStore, D, C>,
    start_points: Seq<&[T]>,
    compressed: Seq<Compression>,
)
    requires
        provider.full_vectors.count() <= usize::MAX,
        provider.full_vectors.start_points() >= 1,
        start_points.len() <= usize::MAX,
    ensures
        ({
            let writes = population(provider, start_points, compressed);
            let expected = provider.full_vectors.start_points();
            writes.outcome matches Err(e) ==> if provider.full_vectors.count() - 1 > u32::MAX {
                &&& e is IdConversion
                &&& writes.changes.len() == 0
            } else if start_points.len() != expected {
                &&& e matches IndexError::StartPointMismatch { rows, expected: n } && rows
                    == start_points.len() && n == expected
                &&& writes.changes.len() == 0
            } else {
                e == IndexError::VectorDimension
            }
        }),
{
    let points = provider.full_vectors.points();
    let count = provider.full_vectors.count();
    vector_provider::law_ids_of_start_points(points, count);
    if let Ok(ids) = vector_provider::ids_between(points, count) {
        let f = |id: u32, k: int| provider.start_point_step(id, start_points[k]@);
        let steps = Seq::new(ids.len(), |k: int| f(ids[k], k));
        if start_points.len() == ids.len() && write_plan::in_sequence(steps).outcome is Err {
            let k = lemma_failure_of_steps(steps);
            assert(ids[k] as int == points + k);
            assert(steps[k] == provider.start_point_step(ids[k], start_points[k]@));
        }
    }
}

/// An index has the numbers, the metric and the places of its parameters. It fetches as many
/// full-precision vectors per fill as they say, none included, and all where they say nothing.
pub proof fn law_index_is_as_asked<T: Castable, Q, D, C: StoreConfig>(
    provider: RocksdbProvider<T, Q, D, C>,
    params: RocksdbProviderParameters<C>,
)
    requires
        provider.is_made_to(params),
    ensures
        provider.full_vectors.points() == params.max_points,
        provider.full_vectors.start_points() == params.num_start_points,
        provider.full_vectors.count() == params.max_points + params.num_start_points,
        provider.full_vectors.vector_len() == params.dim,
        provider.full_vectors.configuration() == params.vector_provider_config,
        provider.neighbor_provider.degree() == params.max_degree,
        provider.neighbor_provider.configuration() == params.neighbor_list_provider_config,
        params.max_fp_vecs_per_fill matches Some(n) ==> provider.max_fp_vecs_per_fill == n,
        params.max_fp_vecs_per_fill is None ==> provider.max_fp_vecs_per_fill == usize::MAX,
        provider.metric == params.metric,
        provider.graph_params == params.graph_params,
{
}

/// The marks of a new index are as many as were asked for, and none is set. A new quant vector store
/// has room for all vectors, and the table, the metric and the place that it was given.
pub proof fn law_new_layers_are_as_asked<C: StoreConfig>(
    max_size: usize,
    marks: TableDeleteProviderAsync,
    shape: PqShape,
    max_points: usize,
    frozen_points: usize,
    metric: Metric,
    config: C,
    quantized: QuantVectorProvider<C>,
)
    ensures
        TableBasedDeletes.creates(max_size, marks) ==> marks@.len() == max_size && forall|i: int|
            0 <= i < max_size ==> !#[trigger] marks@[i],
        shape.creates(max_points, frozen_points, metric, config, quantized) ==> {
            &&& quantized.count() == max_points + frozen_points
            &&& quantized.shape() == shape
            &&& quantized.distance_metric() == metric
            &&& quantized.configuration() == config
        },
{
}

/// What setting one start point leaves. A vector that is refused changes nothing, and why it is
/// refused is reported. Otherwise the vector is stored, whatever was there, the neighbor list is
/// empty, and nothing else changes.
pub proof fn law_one_start_point<T: Castable, D, C: StoreConfig>(
    provider: RocksdbProvider<T, NoStore, D, C>,
    stores: write_plan::Stores,
    id: u32,
    row: Seq<T>,
    name: StoreName,
    key: Seq<u8>,
)
    requires
        provider.neighbor_provider.wf(),
    ensures
        ({
            let step = provider.start_point_step(id, row);
            let after = stores.after_all(step.changes);
            let own = key == store::key_of(id as nat);
            match provider.full_vectors.set_outcome(id as usize, row) {
                Err(e) => step.outcome == Err::<(), IndexError>(e) && after.read(name, key)
                    == stores.read(name, key),
                Ok(_) => {
                    &&& step.outcome is Ok
                    &&& own && name == StoreName::FullVectors ==> provider.full_vectors.vector_in(
                        id as usize,
                        after.read(name, key),
                    ) == Ok::<Seq<T>, IndexError>(row)
                    &&& own && name == StoreName::Neighbors ==> provider.neighbor_provider.list_in(
                        after.read(name, key),
                    ) == Ok::<Seq<u32>, IndexError>(seq![])
                    &&& !own || name == StoreName::QuantVectors ==> after.read(name, key)
                        == stores.read(name, key)
                },
            }
        }),
{
    let step = provider.start_point_step(id, row);
    let own_key = store::key_of(id as nat);
    if provider.full_vectors.set_outcome(id as usize, row) is Ok {
        vector_provider::law_get_after_set(provider.full_vectors, Map::empty(), id as usize, row);
        neighbor_provider::law_get_after_set(provider.neighbor_provider, Map::empty(), id, seq![]);
        if key == own_key && name == StoreName::FullVectors {
            let value = byte_image::words_bytes(row);
            write_plan::lemma_last_put(stores, step.changes, 0, name, key, value);
        } else if key == own_key && name == StoreName::Neighbors {
            let none = neighbor_codec::stored_list::<u32>(seq![]);
            write_plan::lemma_last_put(stores, step.changes, 1, name, key, none);
        } else {
            write_plan::lemma_read_is_kept(stores, step.changes, name, key);
        }
    }
}

/// What setting one start point with a quantized vector leaves. A vector that is refused changes
/// nothing. Where only its quantized vector is refused, the vector is stored and the neighbor list
/// is as it was. Otherwise both are stored and the neighbor list is empty. Why something is refused
/// is reported, and nothing else changes.
pub proof fn law_one_quantized_start_point<T: Castable, D, C: StoreConfig>(
    provider: RocksdbProvider<T, QuantVectorProvider<C>, D, C>,
    stores: write_plan::Stores,
    id: u32,
    row: Seq<T>,
    compressed: Compression,
    name: StoreName,
    key: Seq<u8>,
)
    requires
        provider.neighbor_provider.wf(),
    ensures
        ({
            let step = provider.start_point_step(id, row, compressed);
            let after = stores.after_all(step.changes);
            let own = key == store::key_of(id as nat);
            let quantized = provider.quant_vectors.set_outcome(id as usize, compressed);
            match provider.full_vectors.set_outcome(id as usize, row) {
                Err(e) => step.outcome == Err::<(), IndexError>(e) && after.read(name, key)
                    == stores.read(name, key),
                Ok(_) => {
                    &&& quantized matches Err(e) ==> step.outcome == Err::<(), IndexError>(e)
                    &&& quantized is Ok ==> step.outcome is Ok
                    &&& own && name == StoreName::FullVectors ==> provider.full_vectors.vector_in(
                        id as usize,
                        after.read(name, key),
                    ) == Ok::<Seq<T>, IndexError>(row)
                    &&& own && name == StoreName::QuantVectors && quantized is Ok ==> (
                    compressed matches Ok(c) && c.code matches Ok(code) && after.read(name, key)
                        == Some(code@))
                    &&& own && name == StoreName::Neighbors && quantized is Ok
                        ==> provider.neighbor_provider.list_in(after.read(name, key)) == Ok::<
                        Seq<u32>,
                        IndexError,
                    >(seq![])
                    &&& !own || (quantized is Err && name != StoreName::FullVectors)
                        ==> after.read(name, key) == stores.read(name, key)
                },
            }
        }),
{
    let step = provider.start_point_step(id, row, compressed);
    let own_key = store::key_of(id as nat);
    let quantized = provider.quant_vectors.set_outcome(id as usize, compressed);
    if provider.full_vectors.set_outcome(id as usize, row) is Ok {
        vector_provider::law_get_after_set(provider.full_vectors, Map::empty(), id as usize, row);
        neighbor_provider::law_get_after_set(provider.neighbor_provider, Map::empty(), id, seq![]);
        if key == own_key && name == StoreName::FullVectors {
            let value = byte_image::words_bytes(row);
            write_plan::lemma_last_put(stores, step.changes, 0, name, key, value);
        } else if key == own_key && name == StoreName::QuantVectors && quantized is Ok {
            let code = compressed->Ok_0.code->Ok_0@;
            write_plan::lemma_last_put(stores, step.changes, 1, name, key, code);
        } else if key == own_key && name == StoreName::Neighbors && quantized is Ok {
            let none = neighbor_codec::stored_list::<u32>(seq![]);
            write_plan::lemma_last_put(stores, step.changes, 2, name, key, none);
        } else {
            write_plan::lemma_read_is_kept(stores, step.changes, name, key);
        }
    }
}

} // verus!
