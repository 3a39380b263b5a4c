//! Reranking of search results by their full-precision distances.

use crate::rocksdb::provider::NoDeletes;
use crate::table_delete_provider::TableDeleteProviderAsync;
use crate::words::F32Bits;
use vstd::arithmetic::power2;
use vstd::prelude::*;

verus! {

/// Tells deleted vectors from others.
pub trait DeletionCheck {
    /// Whether `id` can be asked about.
    spec fn knows(&self, id: u32) -> bool;

    /// Whether the vector with this id is deleted.
    spec fn is_marked(&self, id: u32) -> bool;

    /// Whether the vector with this id is deleted.
    fn deletion_check(&self, id: u32) -> (deleted: bool)
        requires
            self.knows(id),
        ensures
            deleted == self.is_marked(id),
    ;
}

impl DeletionCheck for NoDeletes {
    open spec fn knows(&self, id: u32) -> bool {
        true
    }

    open spec fn is_marked(&self, id: u32) -> bool {
        false
    }

    fn deletion_check(&self, _id: u32) -> (deleted: bool) {
        false
    }
}

impl DeletionCheck for TableDeleteProviderAsync {
    open spec fn knows(&self, id: u32) -> bool {
        id < self@.len()
    }

    open spec fn is_marked(&self, id: u32) -> bool {
        self@[id as int]
    }

    fn deletion_check(&self, id: u32) -> (deleted: bool) {
        self.is_deleted(id as usize)
    }
}

/// The place of a float in the order of floats, from its bits. It orders all floats that are
/// numbers as their values are ordered; both zeros have the same place.
pub open spec fn float_place(bits: u32) -> int {
    if bits < 0x8000_0000 {
        bits as int
    } else {
        0x8000_0000 - bits
    }
}

/// The place of a float in the order of floats.
fn place(distance: &F32Bits) -> (p: i64)
    ensures
        p == float_place(distance.0),
{
    if distance.0 < 0x8000_0000 {
        distance.0 as i64
    } else {
        0x8000_0000 - distance.0 as i64
    }
}

/// std's `sort_unstable_by_key`, by the place of the distance: the items are permuted so that
/// their places ascend. Nothing is said of the order of items with one place.
#[verifier::external_body]
fn sort_by_distance(items: &mut Vec<(u32, F32Bits)>)
    ensures
        final(items)@.to_multiset() == old(items)@.to_multiset(),
        forall|i: int, j: int|
            0 <= i <= j < final(items)@.len() ==> float_place((#[trigger] final(items)@[i]).1.0)
                <= float_place((#[trigger] final(items)@[j]).1.0),
{
    items.sort_unstable_by_key(|item| place(&item.1));
}

/// The ids among `candidates` whose vectors are not deleted, in order.
pub open spec fn undeleted<D: DeletionCheck>(candidates: Seq<u32>, marks: D) -> Seq<u32> {
    candidates.filter(|id: u32| !marks.is_marked(id))
}

/// Reranks the results of a search over quantized vectors.
#[derive(Clone, Copy, Debug, Default)]
pub struct Rerank;

impl Rerank {
    /// The candidates whose full-precision distances are to be computed: those that are not
    /// deleted, in order.
    pub fn candidates<D: DeletionCheck>(&self, marks: &D, candidates: &[u32]) -> (ids: Vec<u32>)
        requires
            forall|i: int| 0 <= i < candidates@.len() ==> marks.knows(#[trigger] candidates@[i]),
        ensures
            ids@ == undeleted(candidates@, *marks),
    {
        let mut ids: Vec<u32> = Vec::new();
        proof {
            reveal(Seq::filter);
            assert(undeleted(candidates@.take(0), *marks) =~= seq![]);
        }
        for i in 0..candidates.len()
            invariant
                forall|i: int|
                    0 <= i < candidates@.len() ==> marks.knows(#[trigger] candidates@[i]),
                ids@ == undeleted(candidates@.take(i as int), *marks),
        {
            proof {
                reveal(Seq::filter);
                let longer = candidates@.take(i + 1);
                assert(longer.drop_last() =~= candidates@.take(i as int));
                assert(longer.last() == candidates@[i as int]);
            }
            if !marks.deletion_check(candidates[i]) {
                ids.push(candidates[i]);
            }
        }
        assert(candidates@.take(candidates@.len() as int) =~= candidates@);
        ids
    }

    /// The results, by ascending distance.
    pub fn rank(&self, reranked: Vec<(u32, F32Bits)>) -> (results: Vec<(u32, F32Bits)>)
        ensures
            results@.to_multiset() == reranked@.to_multiset(),
            forall|i: int, j: int|
                0 <= i <= j < results@.len() ==> float_place((#[trigger] results@[i]).1.0)
                    <= float_place((#[trigger] results@[j]).1.0),
    {
        let mut results = reranked;
        sort_by_distance(&mut results);
        results
    }
}

/// What is reranked is every candidate that is not deleted, and nothing else.
pub proof fn law_no_deleted_vector_is_reranked<D: DeletionCheck>(
    candidates: Seq<u32>,
    marks: D,
    id: u32,
)
    ensures
        undeleted(candidates, marks).contains(id) <==> candidates.contains(id)
            && !marks.is_marked(id),
    decreases candidates.len(),
{
    reveal(Seq::filter);
    let ids = undeleted(candidates, marks);
    if candidates.len() > 0 {
        let rest = candidates.drop_last();
        let last = candidates.last();
        law_no_deleted_vector_is_reranked(rest, marks, id);
        let sub = undeleted(rest, marks);
        assert(candidates =~= rest.push(last));
        assert(candidates.contains(id) <==> rest.contains(id) || last == id) by {
            if candidates.contains(id) && last != id {
                let i = choose|i: int| 0 <= i < candidates.len() && candidates[i] == id;
                assert(rest[i] == id);
            }
            if rest.contains(id) {
                let i = choose|i: int| 0 <= i < rest.len() && rest[i] == id;
                assert(candidates[i] == id);
            }
            assert(candidates[candidates.len() - 1] == last);
        }
        if !marks.is_marked(last) {
            assert(ids == sub.push(last));
            assert(ids.contains(id) <==> sub.contains(id) || last == id) by {
                if ids.contains(id) && last != id {
                    let i = choose|i: int| 0 <= i < ids.len() && ids[i] == id;
                    assert(sub[i] == id);
                }
                if sub.contains(id) {
                    let i = choose|i: int| 0 <= i < sub.len() && sub[i] == id;
                    assert(ids[i] == id);
                }
                assert(ids[ids.len() - 1] == last);
            }
        }
    }
}

/// Places order floats as their values do. Of two that are not negative, the one with the
/// smaller bits comes first; of two negative ones, the one with the larger bits; a negative float
/// comes before every other one, but that the two zeros share a place.
pub proof fn law_places_order_floats(a: u32, b: u32)
    ensures
        a < 0x8000_0000 && b < 0x8000_0000 ==> (a < b <==> float_place(a) < float_place(b)),
        a >= 0x8000_0000 && b >= 0x8000_0000 ==> (a > b <==> float_place(a) < float_place(b)),
        a > 0x8000_0000 && b < 0x8000_0000 ==> float_place(a) < float_place(b),
        float_place(a) == float_place(b) <==> a == b || (a == 0 && b == 0x8000_0000) || (a
            == 0x8000_0000 && b == 0),
{
}

/// The value of a finite float, as a multiple of the smallest positive one. Its 23 low bits are
/// its digits, the eight bits above them its exponent, and the top bit its sign.
pub open spec fn float_value(bits: u32) -> int {
    let magnitude = bits as int % 0x8000_0000;
    let exponent = magnitude / 0x80_0000;
    let digits = magnitude % 0x80_0000;
    let value = if exponent == 0 {
        digits
    } else {
        (0x80_0000 + digits) * power2::pow2((exponent - 1) as nat)
    };
    if bits < 0x8000_0000 {
        value
    } else {
        -value
    }
}

/// Larger bits below the sign are a larger value.
proof fn lemma_magnitudes_ascend(a: u32, b: u32)
    requires
        a < b < 0x8000_0000,
    ensures
        0 <= float_value(a) < float_value(b),
{
    let ea = a as int / 0x80_0000;
    let eb = b as int / 0x80_0000;
    let da = a as int % 0x80_0000;
    let db = b as int % 0x80_0000;
    assert(ea <= eb);
    if ea > 0 {
        power2::lemma_pow2_pos((ea - 1) as nat);
    }
    if eb > 0 {
        power2::lemma_pow2_pos((eb - 1) as nat);
    }
    if ea == eb {
        assert(da < db);
        if ea > 0 {
            let p = power2::pow2((ea - 1) as nat) as int;
            assert(0 < (0x80_0000 + da) * p < (0x80_0000 + db) * p) by (nonlinear_arith)
                requires
                    p > 0,
                    0 <= da < db,
            ;
        }
    } else {
        let q = power2::pow2((eb - 1) as nat) as int;
        assert((0x80_0000 + db) * q >= 0x80_0000 * q) by (nonlinear_arith)
            requires
                q > 0,
                db >= 0,
        ;
        if ea > 0 {
            let p = power2::pow2((ea - 1) as nat) as int;
            // The next exponent doubles the value.
            power2::lemma_pow2_unfold(ea as nat);
            if ea < eb - 1 {
                power2::lemma_pow2_strictly_increases(ea as nat, (eb - 1) as nat);
            }
            assert(q >= 2 * p);
            assert(0 < (0x80_0000 + da) * p < 0x80_0000 * q) by (nonlinear_arith)
                requires
                    p > 0,
                    q >= 2 * p,
                    0 <= da < 0x80_0000,
            ;
        }
    }
}

/// Places order finite floats as their values do.
pub proof fn law_places_order_values(a: u32, b: u32)
    requires
        a as int % 0x8000_0000 < 0x7f80_0000,
        b as int % 0x8000_0000 < 0x7f80_0000,
    ensures
        float_place(a) < float_place(b) <==> float_value(a) < float_value(b),
{
    let x = (a as int % 0x8000_0000) as u32;
    let y = (b as int % 0x8000_0000) as u32;
    if x < y {
        lemma_magnitudes_ascend(x, y);
    }
    if y < x {
        lemma_magnitudes_ascend(y, x);
    }
    if x > 0 {
        lemma_magnitudes_ascend(0, x);
    }
    if y > 0 {
        lemma_magnitudes_ascend(0, y);
    }
    assert(float_value(a) == if a < 0x8000_0000 {
        float_value(x)
    } else {
        -float_value(x)
    });
    assert(float_value(b) == if b < 0x8000_0000 {
        float_value(y)
    } else {
        -float_value(y)
    });
    assert(float_value(0) == 0);
}

/// What is reranked keeps its order and its repetitions: of candidates in two parts it is what
/// is reranked of the first part, and then of the second, and a single candidate is left out
/// if and only if it is deleted.
pub proof fn law_reranked_candidates_keep_their_order<D: DeletionCheck>(
    first: Seq<u32>,
    second: Seq<u32>,
    marks: D,
    id: u32,
)
    ensures
        undeleted(first + second, marks) == undeleted(first, marks) + undeleted(second, marks),
        undeleted(seq![id], marks) == (if marks.is_marked(id) {
            Seq::<u32>::empty()
        } else {
            seq![id]
        }),
{
    reveal(Seq::filter);
    Seq::filter_distributes_over_add(first, second, |id: u32| !marks.is_marked(id));
    let one = seq![id];
    assert(one.drop_last() =~= Seq::<u32>::empty());
    assert(one.last() == id);
    assert(undeleted(one.drop_last(), marks) =~= Seq::<u32>::empty());
    assert(Seq::<u32>::empty().push(id) =~= one);
}

} // verus!
