//! The adjacency list of `diskann`.
//!
//! The list is opaque here: `adjacency_ids` stands for the ids that it holds, and each
//! function below says what one of its methods does to them.

use diskann::graph::AdjacencyList;
use vstd::prelude::*;

verus! {

/// `diskann::graph::AdjacencyList`, the out-neighbors of a vertex.
#[verifier::external_type_specification]
#[verifier::external_body]
#[verifier::reject_recursive_types(I)]
pub struct ExAdjacencyList<I>(AdjacencyList<I>);

/// The ids that an adjacency list holds, in order.
pub uninterp spec fn adjacency_ids(list: AdjacencyList<u32>) -> Seq<u32>;

/// `AdjacencyList::new`: a list without ids.
#[verifier::external_body]
pub(crate) fn adjacency_new() -> (list: AdjacencyList<u32>)
    ensures
        adjacency_ids(list) == Seq::<u32>::empty(),
{
    AdjacencyList::new()
}

/// The number of ids, taken from the slice that an `AdjacencyList` dereferences to.
#[verifier::external_body]
pub(crate) fn adjacency_len(list: &AdjacencyList<u32>) -> (len: usize)
    ensures
        len == adjacency_ids(*list).len(),
{
    list.len()
}

/// `AdjacencyList::push`: adds `id` at the end and returns `true`, unless the list holds it
/// already; then the list stays as it was and the result is `false`.
#[verifier::external_body]
pub(crate) fn adjacency_push(list: &mut AdjacencyList<u32>, id: u32) -> (added: bool)
    ensures
        added == !adjacency_ids(*old(list)).contains(id),
        adjacency_ids(*final(list)) == if added {
            adjacency_ids(*old(list)).push(id)
        } else {
            adjacency_ids(*old(list))
        },
{
    list.push(id)
}

/// `AdjacencyList::clear`: removes every id.
#[verifier::external_body]
pub(crate) fn adjacency_clear(list: &mut AdjacencyList<u32>)
    ensures
        adjacency_ids(*final(list)) == Seq::<u32>::empty(),
{
    list.clear()
}

/// `AdjacencyList::resize` and `ResizeGuard::finish`: the list is resized to `slots`, filled
/// from it, and cut to its first `count` ids. `finish` panics in debug builds where the ids
/// that are kept are not all different, hence the second demand.
#[verifier::external_body]
pub(crate) fn adjacency_fill(list: &mut AdjacencyList<u32>, slots: &[u32], count: usize)
    requires
        count <= slots@.len(),
        slots@.take(count as int).no_duplicates(),
    ensures
        adjacency_ids(*final(list)) == slots@.take(count as int),
{
    let mut guard = list.resize(slots.len());
    guard.copy_from_slice(slots);
    guard.finish(count);
}

/// `Vec::from` an `AdjacencyList`: the ids in order.
#[verifier::external_body]
pub(crate) fn adjacency_into_vec(list: AdjacencyList<u32>) -> (ids: Vec<u32>)
    ensures
        ids@ == adjacency_ids(list),
{
    list.into()
}

} // verus!
