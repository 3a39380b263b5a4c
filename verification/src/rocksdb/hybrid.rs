//! Mixtures of full-precision and quantized vectors.

use crate::backend::StoreConfig;
use crate::byte_image::Castable;
use crate::rocksdb::provider::RocksdbProvider;
use vstd::prelude::*;
use vstd::slice::slice_to_vec;

verus! {

/// A full-precision vector or a quantized one.
#[derive(Clone, Copy, Debug, PartialEq, Eq)]
pub enum Hybrid<F, Q> {
    Full(F),
    Quant(Q),
}

impl<F, Q> Hybrid<F, Q> {
    pub fn is_full(&self) -> (full: bool)
        ensures
            full == (*self is Full),
    {
        match self {
            Hybrid::Full(_) => true,
            Hybrid::Quant(_) => false,
        }
    }
}

/// How the distance of two vectors is computed.
#[derive(Clone, Copy, Debug, PartialEq, Eq)]
pub enum Comparison<F, Q> {
    /// Between two full-precision vectors.
    Full(F, F),
    /// Between two quantized vectors.
    Quant(Q, Q),
    /// Between what `full` is compressed to and `quant`.
    Mixed { full: F, quant: Q },
}

/// How the distance of two vectors is computed. In a mixed pair it is the full-precision vector
/// that is compressed, whichever comes first.
pub open spec fn comparison_of<F, Q>(x: Hybrid<F, Q>, y: Hybrid<F, Q>) -> Comparison<F, Q> {
    match (x, y) {
        (Hybrid::Full(x), Hybrid::Full(y)) => Comparison::Full(x, y),
        (Hybrid::Quant(x), Hybrid::Quant(y)) => Comparison::Quant(x, y),
        (Hybrid::Full(x), Hybrid::Quant(y)) => Comparison::Mixed { full: x, quant: y },
        (Hybrid::Quant(x), Hybrid::Full(y)) => Comparison::Mixed { full: y, quant: x },
    }
}

/// How the distance of two vectors is computed.
pub fn comparison<F, Q>(x: Hybrid<F, Q>, y: Hybrid<F, Q>) -> (c: Comparison<F, Q>)
    ensures
        c == comparison_of(x, y),
{
    match (x, y) {
        (Hybrid::Full(x), Hybrid::Full(y)) => Comparison::Full(x, y),
        (Hybrid::Quant(x), Hybrid::Quant(y)) => Comparison::Quant(x, y),
        (Hybrid::Full(x), Hybrid::Quant(y)) => Comparison::Mixed { full: x, quant: y },
        (Hybrid::Quant(x), Hybrid::Full(y)) => Comparison::Mixed { full: y, quant: x },
    }
}

/// The order of the two vectors of a mixed pair does not matter.
pub proof fn law_mixed_comparison_is_symmetric<F, Q>(x: Hybrid<F, Q>, y: Hybrid<F, Q>)
    requires
        x is Full != y is Full,
    ensures
        comparison_of(x, y) == comparison_of(y, x),
{
}

/// What a working set holds for an id.
#[derive(Clone, Copy, Debug, PartialEq, Eq, Structural)]
pub enum EntryState {
    /// A vector that was there before the set was made, which is left alone.
    Seeded,
    Full,
    Quant,
    Vacant,
}

/// What a fill does for an id.
#[derive(Clone, Copy, Debug, PartialEq, Eq, Structural)]
pub enum FillAction {
    Keep,
    FetchFull,
    FetchQuant,
}

/// What a fill does for the `i`-th id: up to the threshold full-precision vectors are fetched,
/// over quantized ones too, and beyond it quantized ones where there is nothing.
pub open spec fn action_for(i: nat, threshold: nat, entry: EntryState) -> FillAction {
    match entry {
        EntryState::Seeded => FillAction::Keep,
        EntryState::Full => FillAction::Keep,
        EntryState::Quant => if i < threshold {
            FillAction::FetchFull
        } else {
            FillAction::Keep
        },
        EntryState::Vacant => if i < threshold {
            FillAction::FetchFull
        } else {
            FillAction::FetchQuant
        },
    }
}

/// What a fill does for the `i`-th id.
fn fill_action(i: usize, threshold: usize, entry: EntryState) -> (action: FillAction)
    ensures
        action == action_for(i as nat, threshold as nat, entry),
{
    match entry {
        EntryState::Seeded | EntryState::Full => FillAction::Keep,
        EntryState::Quant => if i < threshold {
            FillAction::FetchFull
        } else {
            FillAction::Keep
        },
        EntryState::Vacant => if i < threshold {
            FillAction::FetchFull
        } else {
            FillAction::FetchQuant
        },
    }
}

/// What a working set holds for an id after an action.
pub open spec fn entry_after(action: FillAction, entry: EntryState) -> EntryState {
    match action {
        FillAction::Keep => entry,
        FillAction::FetchFull => EntryState::Full,
        FillAction::FetchQuant => EntryState::Quant,
    }
}

/// What a working set holds after a fill for `ids`, where it held `set` before.
pub open spec fn filled(ids: Seq<u32>, threshold: nat, set: spec_fn(u32) -> EntryState) -> spec_fn(
    u32,
) -> EntryState
    decreases ids.len(),
{
    if ids.len() == 0 {
        set
    } else {
        let before = filled(ids.drop_last(), threshold, set);
        let i = (ids.len() - 1) as nat;
        |id: u32|
            if id == ids.last() {
                entry_after(action_for(i, threshold, before(id)), before(id))
            } else {
                before(id)
            }
    }
}

/// The number of full-precision vectors that a fill for `ids` fetches.
pub open spec fn full_fetches(
    ids: Seq<u32>,
    threshold: nat,
    set: spec_fn(u32) -> EntryState,
) -> nat
    decreases ids.len(),
{
    if ids.len() == 0 {
        0
    } else {
        let before = filled(ids.drop_last(), threshold, set);
        let i = (ids.len() - 1) as nat;
        full_fetches(ids.drop_last(), threshold, set) + if action_for(
            i,
            threshold,
            before(ids.last()),
        ) == FillAction::FetchFull {
            1nat
        } else {
            0nat
        }
    }
}

/// A fill fetches no more full-precision vectors than the threshold.
pub proof fn law_full_fetches_are_bounded(
    ids: Seq<u32>,
    threshold: nat,
    set: spec_fn(u32) -> EntryState,
)
    ensures
        full_fetches(ids, threshold, set) <= threshold,
        full_fetches(ids, threshold, set) <= ids.len(),
    decreases ids.len(),
{
    if ids.len() > 0 {
        law_full_fetches_are_bounded(ids.drop_last(), threshold, set);
    }
}

/// A fill leaves something for each of its ids, and a full-precision vector for each of the ids
/// up to the threshold, but for seeded ones. It leaves seeded vectors and full-precision ones
/// where they are, and other ids as they were.
pub proof fn law_fill(ids: Seq<u32>, threshold: nat, set: spec_fn(u32) -> EntryState, id: u32)
    ensures
        ({
            let after = filled(ids, threshold, set)(id);
            &&& set(id) == EntryState::Seeded ==> after == EntryState::Seeded
            &&& set(id) == EntryState::Full ==> after == EntryState::Full
            &&& !ids.contains(id) ==> after == set(id)
            &&& ids.contains(id) ==> after != EntryState::Vacant
            &&& (exists|i: int| 0 <= i < ids.len() && i < threshold && ids[i] == id)
                && set(id) != EntryState::Seeded ==> after == EntryState::Full
            &&& after == EntryState::Seeded ==> set(id) == EntryState::Seeded
        }),
    decreases ids.len(),
{
    if ids.len() > 0 {
        let rest = ids.drop_last();
        law_fill(rest, threshold, set, id);
        if ids.contains(id) && ids.last() != id {
            let i = choose|i: int| 0 <= i < ids.len() && ids[i] == id;
            assert(rest[i] == id);
        }
        if rest.contains(id) {
            let i = choose|i: int| 0 <= i < rest.len() && rest[i] == id;
            assert(ids[i] == id);
        }
        if exists|i: int| 0 <= i < ids.len() && i < threshold && ids[i] == id {
            let i = choose|i: int| 0 <= i < ids.len() && i < threshold && ids[i] == id;
            if i < rest.len() {
                assert(rest[i] == id);
            }
        }
        assert(ids[ids.len() - 1] == ids.last());
    }
}

/// Fetches mixtures of full-precision and quantized vectors.
#[derive(Clone, Copy, Debug)]
pub struct HybridAccessor {
    max_fp_vecs_per_fill: usize,
}

impl HybridAccessor {
    /// The number of ids of a fill for which full-precision vectors are fetched.
    pub closed spec fn threshold(self) -> nat {
        self.max_fp_vecs_per_fill as nat
    }

    /// The accessor of an index.
    pub fn new<T: Castable, Q, D, C: StoreConfig>(provider: &RocksdbProvider<T, Q, D, C>) -> (
    accessor: Self)
        ensures
            accessor.threshold() == provider.max_fp_vecs_per_fill,
    {
        HybridAccessor { max_fp_vecs_per_fill: provider.max_fp_vecs_per_fill }
    }

    /// The fill of a working set for `ids`.
    pub fn fill(&self, ids: &[u32]) -> (fill: HybridFill)
        ensures
            fill.all_ids() == ids@,
            fill.threshold() == self.threshold(),
            fill.done() == 0,
    {
        HybridFill { ids: slice_to_vec(ids), threshold: self.max_fp_vecs_per_fill, next: 0 }
    }
}

/// A fill of a working set that goes through its ids in order.
///
/// For each id the caller looks up what the working set holds, hands that in, and does what it
/// is told. A fetch that fails ends the fill.
#[derive(Debug)]
pub struct HybridFill {
    ids: Vec<u32>,
    threshold: usize,
    next: usize,
}

impl HybridFill {
    /// The ids of the fill.
    pub closed spec fn all_ids(self) -> Seq<u32> {
        self.ids@
    }

    /// The number of ids for which full-precision vectors are fetched.
    pub closed spec fn threshold(self) -> nat {
        self.threshold as nat
    }

    /// The number of ids that were gone through.
    pub closed spec fn done(self) -> nat {
        self.next as nat
    }

    /// No more ids are gone through than there are.
    #[verifier::type_invariant]
    closed spec fn wf(self) -> bool {
        self.next <= self.ids@.len()
    }

    /// The id that is next, if any is left.
    pub fn current(&self) -> (id: Option<u32>)
        ensures
            match id {
                Some(id) => self.done() < self.all_ids().len() && id
                    == self.all_ids()[self.done() as int],
                None => self.done() == self.all_ids().len(),
            },
    {
        proof {
            use_type_invariant(self);
        }
        if self.next < self.ids.len() {
            Some(self.ids[self.next])
        } else {
            None
        }
    }

    /// What to do for the current id, for which the working set holds `entry`. The next id is
    /// then the current one.
    pub fn step(&mut self, entry: EntryState) -> (action: FillAction)
        requires
            old(self).done() < old(self).all_ids().len(),
        ensures
            action == action_for(old(self).done(), old(self).threshold(), entry),
            final(self).done() == old(self).done() + 1,
            final(self).all_ids() == old(self).all_ids(),
            final(self).threshold() == old(self).threshold(),
    {
        let action = fill_action(self.next, self.threshold, entry);
        assert(self.next < self.ids.len());
        self.next = self.next + 1;
        action
    }
}

/// One step of a fill takes what the working set holds after `n` ids to what it holds after one
/// more.
pub proof fn law_fill_step(
    ids: Seq<u32>,
    n: nat,
    threshold: nat,
    set: spec_fn(u32) -> EntryState,
    id: u32,
)
    requires
        n < ids.len(),
    ensures
        ({
            let before = filled(ids.take(n as int), threshold, set)(id);
            filled(ids.take(n as int + 1), threshold, set)(id) == if id == ids[n as int] {
                entry_after(action_for(n, threshold, before), before)
            } else {
                before
            }
        }),
{
    assert(ids.take(n as int + 1).drop_last() =~= ids.take(n as int));
}

/// What a fill leaves beyond the threshold: an id that occurs at no position before it is left with
/// a quantized vector where there was nothing, and with the quantized vector that was there.
pub proof fn law_fill_beyond_the_threshold(
    ids: Seq<u32>,
    threshold: nat,
    set: spec_fn(u32) -> EntryState,
    id: u32,
)
    requires
        ids.contains(id),
        forall|i: int| 0 <= i < ids.len() && i < threshold ==> #[trigger] ids[i] != id,
        set(id) == EntryState::Vacant || set(id) == EntryState::Quant,
    ensures
        filled(ids, threshold, set)(id) == EntryState::Quant,
    decreases ids.len(),
{
    let rest = ids.drop_last();
    assert forall|i: int| 0 <= i < rest.len() && i < threshold implies #[trigger] rest[i] != id by {
        assert(ids[i] != id);
    }
    if rest.contains(id) {
        law_fill_beyond_the_threshold(rest, threshold, set, id);
    } else {
        law_fill(rest, threshold, set, id);
        let i = choose|i: int| 0 <= i < ids.len() && ids[i] == id;
        if i < rest.len() {
            assert(rest[i] == id);
        }
    }
}

/// Nothing is fetched in vain: what is fetched is of another kind than what was there, and where
/// nothing is fetched there is something. Seeded and full-precision vectors stay, and a quantized
/// vector is never fetched over anything.
pub proof fn law_nothing_is_fetched_in_vain(i: nat, threshold: nat, entry: EntryState)
    ensures
        ({
            let action = action_for(i, threshold, entry);
            let after = entry_after(action, entry);
            &&& action == FillAction::Keep <==> after == entry
            &&& after != EntryState::Vacant
            &&& entry == EntryState::Seeded || entry == EntryState::Full ==> action
                == FillAction::Keep
            &&& action == FillAction::FetchQuant ==> entry == EntryState::Vacant && i >= threshold
            &&& action == FillAction::FetchFull ==> i < threshold
            &&& i < threshold && entry != EntryState::Seeded ==> after == EntryState::Full
        }),
{
}

/// A comparison takes both vectors, each as what it is, and the two of one kind in their order.
pub proof fn law_comparison_takes_both_vectors<F, Q>(x: Hybrid<F, Q>, y: Hybrid<F, Q>)
    ensures
        match comparison_of(x, y) {
            Comparison::Full(a, b) => x == Hybrid::<F, Q>::Full(a) && y == Hybrid::<F, Q>::Full(b),
            Comparison::Quant(a, b) => x == Hybrid::<F, Q>::Quant(a) && y == Hybrid::<F, Q>::Quant(
                b,
            ),
            Comparison::Mixed { full, quant } => {
                ||| x == Hybrid::<F, Q>::Full(full) && y == Hybrid::<F, Q>::Quant(quant)
                ||| x == Hybrid::<F, Q>::Quant(quant) && y == Hybrid::<F, Q>::Full(full)
            },
        },
{
}

} // verus!
