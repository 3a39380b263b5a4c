//! Which vectors of an index are deleted.

use crate::bits;
use vstd::prelude::*;

verus! {

/// A bitmap with one mark per vector.
///
/// It is viewed as the sequence of the marks: the vector with id `i` is deleted where mark `i`
/// is set.
pub struct TableDeleteProviderAsync {
    max_size: usize,
    words: Vec<u32>,
}

/// The number of 32-bit words that hold `n` marks.
pub open spec fn word_count(n: nat) -> nat {
    (n + 31) / 32
}

/// The number of 32-bit words that hold `n` marks.
pub fn words_for(n: usize) -> (count: usize)
    ensures
        count == word_count(n as nat),
{
    if n % 32 == 0 {
        n / 32
    } else {
        n / 32 + 1
    }
}

impl View for TableDeleteProviderAsync {
    type V = Seq<bool>;

    closed spec fn view(&self) -> Seq<bool> {
        Seq::new(self.max_size as nat, |i: int| bits::bit(self.words@[i / 32], (i % 32) as nat))
    }
}

impl TableDeleteProviderAsync {
    /// There is a word for every mark.
    #[verifier::type_invariant]
    spec fn wf(self) -> bool {
        self.words@.len() == word_count(self.max_size as nat)
    }

    /// A bitmap for `max_size` vectors, none of which is deleted.
    pub fn new(max_size: usize) -> (provider: Self)
        ensures
            provider@ == Seq::new(max_size as nat, |i: int| false),
    {
        let words: Vec<u32> = vec![0;words_for(max_size)];
        let provider = TableDeleteProviderAsync { max_size, words };
        proof {
            assert forall|i: int| 0 <= i < max_size implies #[trigger] provider@[i] == false by {
                bits::lemma_zero_word((i % 32) as nat);
            }
            assert(provider@ =~= Seq::new(max_size as nat, |i: int| false));
        }
        provider
    }

    /// The number of vectors.
    pub fn max_size(&self) -> (size: usize)
        ensures
            size == self@.len(),
    {
        self.max_size
    }

    /// Whether a vector is deleted.
    pub fn is_deleted(&self, id: usize) -> (deleted: bool)
        requires
            id < self@.len(),
        ensures
            deleted == self@[id as int],
    {
        proof {
            use_type_invariant(self);
        }
        bits::get_bit(self.words[id / 32], (id % 32) as u32)
    }

    /// Marks a vector as deleted.
    pub fn delete(&mut self, id: usize)
        requires
            id < old(self)@.len(),
        ensures
            final(self)@ == old(self)@.update(id as int, true),
    {
        proof {
            use_type_invariant(&*self);
        }
        let word = bits::set_bit(self.words[id / 32], (id % 32) as u32);
        self.words[id / 32] = word;
        assert(self@ =~= old(self)@.update(id as int, true));
    }

    /// Takes the mark of a vector away.
    pub fn undelete(&mut self, id: usize)
        requires
            id < old(self)@.len(),
        ensures
            final(self)@ == old(self)@.update(id as int, false),
    {
        proof {
            use_type_invariant(&*self);
        }
        let word = bits::clear_bit(self.words[id / 32], (id % 32) as u32);
        self.words[id / 32] = word;
        assert(self@ =~= old(self)@.update(id as int, false));
    }

    /// Takes every mark away.
    pub fn clear(&mut self)
        ensures
            final(self)@ == Seq::new(old(self)@.len(), |i: int| false),
    {
        let cleared = TableDeleteProviderAsync::new(self.max_size);
        *self = cleared;
    }
}

} // verus!
