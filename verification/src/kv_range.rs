//! Ranges of keys, in the order of their bytes.

use vstd::prelude::*;

verus! {

/// Whether `a` comes before `b` in the order of keys: at the first byte in which they differ
/// `a` has the smaller one, or `a` is a proper beginning of `b`.
pub open spec fn key_before(a: Seq<u8>, b: Seq<u8>) -> bool
    decreases a.len(),
{
    if b.len() == 0 {
        false
    } else if a.len() == 0 {
        true
    } else if a[0] != b[0] {
        a[0] < b[0]
    } else {
        key_before(a.drop_first(), b.drop_first())
    }
}

/// Of two different keys one comes before the other, and not both.
pub proof fn law_keys_are_ordered(a: Seq<u8>, b: Seq<u8>)
    ensures
        a != b ==> key_before(a, b) != key_before(b, a),
        !key_before(a, a),
    decreases a.len(),
{
    if a.len() == 0 {
        if b.len() == 0 {
            assert(a =~= b);
        }
    } else if b.len() > 0 && a[0] == b[0] {
        law_keys_are_ordered(a.drop_first(), b.drop_first());
        if a.drop_first() == b.drop_first() {
            assert forall|i: int| 0 <= i < a.len() implies a[i] == b[i] by {
                if i > 0 {
                    assert(a[i] == a.drop_first()[i - 1]);
                    assert(b[i] == b.drop_first()[i - 1]);
                }
            }
            assert(a.len() == a.drop_first().len() + 1);
            assert(b.len() == b.drop_first().len() + 1);
            assert(a =~= b);
        }
    }
    if a.len() > 0 {
        law_keys_are_ordered(a.drop_first(), a.drop_first());
    }
}

/// The order of keys is transitive.
pub proof fn law_key_order_is_transitive(a: Seq<u8>, b: Seq<u8>, c: Seq<u8>)
    requires
        key_before(a, b),
        key_before(b, c),
    ensures
        key_before(a, c),
    decreases a.len(),
{
    if a.len() > 0 && a[0] == b[0] && b[0] == c[0] {
        law_key_order_is_transitive(a.drop_first(), b.drop_first(), c.drop_first());
    }
}

/// Whether `a` comes before `b` in the order of keys.
pub fn is_key_before(a: &[u8], b: &[u8]) -> (before: bool)
    ensures
        before == key_before(a@, b@),
{
    let mut i: usize = 0;
    assert(a@.skip(0) =~= a@);
    assert(b@.skip(0) =~= b@);
    while i < a.len() && i < b.len()
        invariant
            i <= a@.len(),
            i <= b@.len(),
            key_before(a@, b@) == key_before(a@.skip(i as int), b@.skip(i as int)),
        decreases a.len() - i,
    {
        if a[i] != b[i] {
            return a[i] < b[i];
        }
        assert(a@.skip(i as int).drop_first() =~= a@.skip(i + 1));
        assert(b@.skip(i as int).drop_first() =~= b@.skip(i + 1));
        i += 1;
    }
    i < b.len()
}

/// One end of a range of keys.
#[derive(Clone, Debug, PartialEq, Eq)]
pub enum RangeBound {
    Unbounded,
    Included(Vec<u8>),
    Excluded(Vec<u8>),
}

/// A range of keys.
#[derive(Clone, Debug, PartialEq, Eq)]
pub struct KeyRange {
    pub start: RangeBound,
    pub end: RangeBound,
}

impl KeyRange {
    /// Whether `key` lies in the range.
    pub open spec fn holds(self, key: Seq<u8>) -> bool {
        &&& match self.start {
            RangeBound::Unbounded => true,
            RangeBound::Included(s) => !key_before(key, s@),
            RangeBound::Excluded(s) => key_before(s@, key),
        }
        &&& match self.end {
            RangeBound::Unbounded => true,
            RangeBound::Included(e) => !key_before(e@, key),
            RangeBound::Excluded(e) => key_before(key, e@),
        }
    }

    /// Whether `key` lies in the range.
    pub fn contains(&self, key: &[u8]) -> (contained: bool)
        ensures
            contained == self.holds(key@),
    {
        let after_start = match &self.start {
            RangeBound::Unbounded => true,
            RangeBound::Included(s) => !is_key_before(key, s.as_slice()),
            RangeBound::Excluded(s) => is_key_before(s.as_slice(), key),
        };
        let before_end = match &self.end {
            RangeBound::Unbounded => true,
            RangeBound::Included(e) => !is_key_before(e.as_slice(), key),
            RangeBound::Excluded(e) => is_key_before(key, e.as_slice()),
        };
        after_start && before_end
    }
}

/// Keys are ordered as words in a dictionary: behind a common beginning the smaller byte decides,
/// whatever follows it, and a key comes before every longer key that begins with it.
pub proof fn law_keys_are_ordered_as_words(
    common: Seq<u8>,
    x: u8,
    y: u8,
    after_x: Seq<u8>,
    after_y: Seq<u8>,
)
    ensures
        x < y ==> key_before(common + seq![x] + after_x, common + seq![y] + after_y),
        key_before(common, common + seq![x] + after_x),
    decreases common.len(),
{
    let a = common + seq![x] + after_x;
    let b = common + seq![y] + after_y;
    if common.len() == 0 {
        assert(a[0] == x && b[0] == y);
    } else {
        let rest = common.drop_first();
        law_keys_are_ordered_as_words(rest, x, y, after_x, after_y);
        assert(a.drop_first() =~= rest + seq![x] + after_x);
        assert(b.drop_first() =~= rest + seq![y] + after_y);
        assert(a[0] == common[0] && b[0] == common[0]);
    }
}

/// A key that does not lie before the one of two keys of a range, nor behind the other, is in the
/// range.
pub proof fn law_ranges_are_convex(range: KeyRange, low: Seq<u8>, key: Seq<u8>, high: Seq<u8>)
    requires
        range.holds(low),
        range.holds(high),
        key == low || key_before(low, key),
        key == high || key_before(key, high),
    ensures
        range.holds(key),
{
    if key != low && key != high {
        match range.start {
            RangeBound::Unbounded => {},
            RangeBound::Included(s) => {
                if key_before(key, s@) {
                    law_key_order_is_transitive(low, key, s@);
                }
            },
            RangeBound::Excluded(s) => {
                law_key_order_is_transitive(s@, low, key);
            },
        }
        match range.end {
            RangeBound::Unbounded => {},
            RangeBound::Included(e) => {
                if key_before(e@, key) {
                    law_key_order_is_transitive(e@, key, high);
                }
            },
            RangeBound::Excluded(e) => {
                law_key_order_is_transitive(key, high, e@);
            },
        }
    }
}

/// The two ends of a range do not depend on each other, and a range without ends holds every
/// key.
pub proof fn law_range_ends_are_independent(range: KeyRange, key: Seq<u8>)
    ensures
        (KeyRange { start: RangeBound::Unbounded, end: RangeBound::Unbounded }).holds(key),
        range.holds(key) <==> (KeyRange { start: range.start, end: RangeBound::Unbounded }).holds(
            key,
        ) && (KeyRange { start: RangeBound::Unbounded, end: range.end }).holds(key),
{
}

/// A range up to an included end holds that end and all keys before it, and one up to an excluded
/// end all keys before it. A range from an included start on holds that start and all keys behind
/// it, and one from an excluded start on all keys behind it. None holds any other key.
pub proof fn law_range_ends(bound: Vec<u8>, key: Seq<u8>)
    ensures
        (KeyRange { start: RangeBound::Unbounded, end: RangeBound::Included(bound) }).holds(key)
            <==> key_before(key, bound@) || key == bound@,
        (KeyRange { start: RangeBound::Unbounded, end: RangeBound::Excluded(bound) }).holds(key)
            <==> key_before(key, bound@),
        (KeyRange { start: RangeBound::Included(bound), end: RangeBound::Unbounded }).holds(key)
            <==> key_before(bound@, key) || key == bound@,
        (KeyRange { start: RangeBound::Excluded(bound), end: RangeBound::Unbounded }).holds(key)
            <==> key_before(bound@, key),
{
    law_keys_are_ordered(key, bound@);
    law_keys_are_ordered(bound@, key);
}

} // verus!
