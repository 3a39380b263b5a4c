//! Writes to the stores of an index, in the order in which they are to be made.
//!
//! An index has a store of its own for its full-precision vectors, its quantized vectors and its
//! neighbor lists.

use crate::error::IndexError;
use crate::store;
use crate::store::StoreOp;
use vstd::prelude::*;

verus! {

/// One of the stores of an index.
#[derive(Clone, Copy, Debug, PartialEq, Eq, Structural)]
pub enum StoreName {
    FullVectors,
    QuantVectors,
    Neighbors,
}

/// A change of one entry of one store.
pub struct StoreChange {
    pub store: StoreName,
    pub change: store::Change,
}

/// A write that is to be made to one of the stores.
#[derive(Clone, Debug, PartialEq, Eq)]
pub struct StoreWrite {
    pub store: StoreName,
    pub op: StoreOp,
}

impl View for StoreWrite {
    type V = StoreChange;

    open spec fn view(&self) -> StoreChange {
        StoreChange { store: self.store, change: self.op@ }
    }
}

/// What the stores of an index hold.
pub struct Stores {
    pub full_vectors: store::Contents,
    pub quant_vectors: store::Contents,
    pub neighbors: store::Contents,
}

impl Stores {
    /// What one of the stores holds.
    pub open spec fn of(self, name: StoreName) -> store::Contents {
        match name {
            StoreName::FullVectors => self.full_vectors,
            StoreName::QuantVectors => self.quant_vectors,
            StoreName::Neighbors => self.neighbors,
        }
    }

    /// What a read of `key` in one of the stores returns.
    pub open spec fn read(self, name: StoreName, key: Seq<u8>) -> Option<Seq<u8>> {
        store::lookup(self.of(name), key)
    }

    /// The stores after a change.
    pub open spec fn after(self, c: StoreChange) -> Stores {
        match c.store {
            StoreName::FullVectors => Stores {
                full_vectors: c.change.apply(self.full_vectors),
                ..self
            },
            StoreName::QuantVectors => Stores {
                quant_vectors: c.change.apply(self.quant_vectors),
                ..self
            },
            StoreName::Neighbors => Stores { neighbors: c.change.apply(self.neighbors), ..self },
        }
    }

    /// The stores after `changes`, made in order.
    pub open spec fn after_all(self, changes: Seq<StoreChange>) -> Stores
        decreases changes.len(),
    {
        if changes.len() == 0 {
            self
        } else {
            self.after(changes[0]).after_all(changes.drop_first())
        }
    }
}

/// Writes, and what is reported once they are made.
pub struct Step {
    pub changes: Seq<StoreChange>,
    pub outcome: Result<(), IndexError>,
}

/// `steps`, one after the other, up to the first that fails.
pub open spec fn in_sequence(steps: Seq<Step>) -> Step
    decreases steps.len(),
{
    if steps.len() == 0 {
        Step { changes: seq![], outcome: Ok(()) }
    } else if steps[0].outcome is Err {
        steps[0]
    } else {
        let rest = in_sequence(steps.drop_first());
        Step { changes: steps[0].changes + rest.changes, outcome: rest.outcome }
    }
}

/// The changes that writes make.
pub open spec fn changes_of(writes: Seq<StoreWrite>) -> Seq<StoreChange> {
    writes.map_values(|w: StoreWrite| w@)
}

/// Writes that are to be made in order, each only if the ones before it were made, and what is
/// to be reported once all are made.
#[derive(Debug)]
pub struct WritePlan {
    pub writes: Vec<StoreWrite>,
    pub outcome: Result<(), IndexError>,
}

impl View for WritePlan {
    type V = Step;

    open spec fn view(&self) -> Step {
        Step { changes: changes_of(self.writes@), outcome: self.outcome }
    }
}

impl WritePlan {
    /// A plan that writes nothing and fails.
    pub fn refused(error: IndexError) -> (plan: Self)
        ensures
            plan@.changes.len() == 0,
            plan@.outcome == Err::<(), IndexError>(error),
    {
        WritePlan { writes: Vec::new(), outcome: Err(error) }
    }
}

/// Changes that are made one sequence after the other.
pub proof fn lemma_after_concat(stores: Stores, a: Seq<StoreChange>, b: Seq<StoreChange>)
    ensures
        stores.after_all(a + b) == stores.after_all(a).after_all(b),
    decreases a.len(),
{
    if a.len() == 0 {
        assert(a + b =~= b);
    } else {
        assert((a + b).drop_first() =~= a.drop_first() + b);
        lemma_after_concat(stores.after(a[0]), a.drop_first(), b);
    }
}

/// A read returns what it did before, where none of the changes concerns its key in its store.
pub proof fn lemma_read_is_kept(
    stores: Stores,
    changes: Seq<StoreChange>,
    name: StoreName,
    key: Seq<u8>,
)
    requires
        forall|i: int|
            0 <= i < changes.len() ==> !((#[trigger] changes[i]).store == name
                && changes[i].change.key() == key),
    ensures
        stores.after_all(changes).read(name, key) == stores.read(name, key),
    decreases changes.len(),
{
    if changes.len() > 0 {
        assert(!(changes[0].store == name && changes[0].change.key() == key));
        assert forall|i: int| 0 <= i < changes.drop_first().len() implies !((
        #[trigger] changes.drop_first()[i]).store == name && changes.drop_first()[i].change.key()
            == key) by {
            assert(changes.drop_first()[i] == changes[i + 1]);
        }
        lemma_read_is_kept(stores.after(changes[0]), changes.drop_first(), name, key);
    }
}

/// Whether a change concerns `key` in the store `name`.
pub open spec fn touches(c: StoreChange, name: StoreName, key: Seq<u8>) -> bool {
    c.store == name && c.change.key() == key
}

/// A read returns what it did before, where none of the steps concerns its key in its store.
pub proof fn lemma_sequence_keeps(stores: Stores, steps: Seq<Step>, name: StoreName, key: Seq<u8>)
    requires
        forall|i: int, m: int|
            0 <= i < steps.len() && 0 <= m < steps[i].changes.len() ==> !touches(
                #[trigger] steps[i].changes[m],
                name,
                key,
            ),
    ensures
        stores.after_all(in_sequence(steps).changes).read(name, key) == stores.read(name, key),
    decreases steps.len(),
{
    if steps.len() > 0 {
        let first = steps[0].changes;
        assert forall|m: int| 0 <= m < first.len() implies !((#[trigger] first[m]).store == name
            && first[m].change.key() == key) by {
            assert(!touches(steps[0].changes[m], name, key));
        }
        lemma_read_is_kept(stores, first, name, key);
        if steps[0].outcome is Ok {
            let rest = steps.drop_first();
            assert forall|i: int, m: int|
                0 <= i < rest.len() && 0 <= m < rest[i].changes.len() implies !touches(
                #[trigger] rest[i].changes[m],
                name,
                key,
            ) by {
                assert(!touches(steps[i + 1].changes[m], name, key));
            }
            lemma_sequence_keeps(stores.after_all(first), rest, name, key);
            lemma_after_concat(stores, first, in_sequence(rest).changes);
        }
    }
}

/// A read returns what the `j`-th step leaves, where no later step concerns its key in its
/// store.
pub proof fn lemma_sequence_read(
    stores: Stores,
    steps: Seq<Step>,
    j: int,
    name: StoreName,
    key: Seq<u8>,
    value: Option<Seq<u8>>,
)
    requires
        0 <= j < steps.len(),
        in_sequence(steps).outcome is Ok,
        forall|s: Stores| (#[trigger] s.after_all(steps[j].changes)).read(name, key) == value,
        forall|i: int, m: int|
            j < i < steps.len() && 0 <= m < steps[i].changes.len() ==> !touches(
                #[trigger] steps[i].changes[m],
                name,
                key,
            ),
    ensures
        stores.after_all(in_sequence(steps).changes).read(name, key) == value,
    decreases steps.len(),
{
    let first = steps[0].changes;
    let rest = steps.drop_first();
    lemma_after_concat(stores, first, in_sequence(rest).changes);
    assert forall|i: int, m: int|
        j - 1 < i < rest.len() && 0 <= i && 0 <= m < rest[i].changes.len() implies !touches(
        #[trigger] rest[i].changes[m],
        name,
        key,
    ) by {
        assert(!touches(steps[i + 1].changes[m], name, key));
    }
    if j == 0 {
        lemma_sequence_keeps(stores.after_all(first), rest, name, key);
    } else {
        assert(rest[j - 1] == steps[j]);
        lemma_sequence_read(stores.after_all(first), rest, j - 1, name, key, value);
    }
}

/// A read returns what the `k`-th change puts, where no later change concerns its key in its
/// store.
pub proof fn lemma_last_put(
    stores: Stores,
    changes: Seq<StoreChange>,
    k: int,
    name: StoreName,
    key: Seq<u8>,
    value: Seq<u8>,
)
    requires
        0 <= k < changes.len(),
        changes[k] == (StoreChange { store: name, change: store::Change::Put { key, value } }),
        forall|i: int| k < i < changes.len() ==> !touches(#[trigger] changes[i], name, key),
    ensures
        stores.after_all(changes).read(name, key) == Some(value),
    decreases changes.len(),
{
    let rest = changes.drop_first();
    if k == 0 {
        assert forall|i: int| 0 <= i < rest.len() implies !((#[trigger] rest[i]).store == name
            && rest[i].change.key() == key) by {
            assert(!touches(changes[i + 1], name, key));
        }
        lemma_read_is_kept(stores.after(changes[0]), rest, name, key);
    } else {
        assert forall|i: int| k - 1 < i < rest.len() implies !touches(
            #[trigger] rest[i],
            name,
            key,
        ) by {
            assert(!touches(changes[i + 1], name, key));
        }
        lemma_last_put(stores.after(changes[0]), rest, k - 1, name, key, value);
    }
}

/// Steps that all succeed are followed by the next steps; nothing follows a step that fails.
pub proof fn law_steps_follow_each_other(first: Seq<Step>, step: Step, second: Seq<Step>)
    ensures
        in_sequence(Seq::empty()).changes.len() == 0 && in_sequence(Seq::empty()).outcome is Ok,
        in_sequence(seq![step]) == step || (step.outcome is Ok && in_sequence(seq![step]).changes
            == step.changes && in_sequence(seq![step]).outcome is Ok),
        in_sequence(first).outcome is Ok ==> in_sequence(first + second) == (Step {
            changes: in_sequence(first).changes + in_sequence(second).changes,
            outcome: in_sequence(second).outcome,
        }),
        in_sequence(first).outcome is Err ==> in_sequence(first + second) == in_sequence(first),
    decreases first.len(),
{
    let one = seq![step];
    assert(one.drop_first() =~= Seq::<Step>::empty());
    assert(in_sequence(one.drop_first()).changes =~= Seq::<StoreChange>::empty());
    assert(step.changes + Seq::<StoreChange>::empty() =~= step.changes);
    if first.len() == 0 {
        assert(first + second =~= second);
        assert(Seq::<StoreChange>::empty() + in_sequence(second).changes =~= in_sequence(
            second,
        ).changes);
    } else {
        let rest = first.drop_first();
        assert((first + second)[0] == first[0]);
        assert((first + second).drop_first() =~= rest + second);
        law_steps_follow_each_other(rest, step, second);
        assert(first[0].changes + (in_sequence(rest).changes + in_sequence(second).changes)
            =~= first[0].changes + in_sequence(rest).changes + in_sequence(second).changes);
    }
}

/// A change of one store leaves the other stores, and other keys of the same store, as they were.
/// What is put is read, and what is deleted is not found.
pub proof fn law_reads_after_a_change(
    stores: Stores,
    c: StoreChange,
    name: StoreName,
    key: Seq<u8>,
)
    ensures
        stores.after(c).read(name, key) == (if c.store == name && c.change.key() == key {
            match c.change {
                store::Change::Put { key, value } => Some(value),
                store::Change::Delete { key } => None,
            }
        } else {
            stores.read(name, key)
        }),
{
}

} // verus!
