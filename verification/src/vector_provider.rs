//! The full-precision vectors of an index, one entry of the store per vector.

use crate::backend::StoreConfig;
use crate::byte_image;
use crate::byte_image::{Castable, Word};
use crate::error::IndexError;
use crate::kv_codec::vector as codec;
use crate::store;
use crate::store::StoreOp;
use std::marker::PhantomData;
use vstd::prelude::*;

verus! {

/// Reads and writes full-precision vectors with elements of type `T`.
pub struct VectorProvider<T: Castable, C: StoreConfig> {
    dim: usize,
    max_vectors: usize,
    num_start_points: usize,
    config: C,
    elements: PhantomData<T>,
}

/// The ids `from..to`, where they are ids; else the first number that is none.
pub open spec fn ids_between(from: nat, to: nat) -> Result<Seq<u32>, IndexError> {
    if from < to && to > u32::MAX + 1 {
        Err(
            IndexError::IdConversion {
                value: if from > u32::MAX {
                    from as usize
                } else {
                    (u32::MAX + 1) as usize
                },
            },
        )
    } else {
        Ok(Seq::new((to - from) as nat, |k: int| (from + k) as u32))
    }
}

impl<T: Castable, C: StoreConfig> VectorProvider<T, C> {
    /// The number of vectors, start points excluded.
    pub closed spec fn points(self) -> nat {
        self.max_vectors as nat
    }

    /// The number of start points.
    pub closed spec fn start_points(self) -> nat {
        self.num_start_points as nat
    }

    /// The number of vectors, start points included.
    pub open spec fn count(self) -> nat {
        self.points() + self.start_points()
    }

    /// The number of elements of a vector.
    pub closed spec fn vector_len(self) -> nat {
        self.dim as nat
    }

    pub closed spec fn configuration(self) -> C {
        self.config
    }

    /// The number of vectors is a machine number.
    #[verifier::type_invariant]
    closed spec fn wf(self) -> bool {
        self.max_vectors + self.num_start_points <= usize::MAX
    }

    /// The number of bytes of a vector is a machine number.
    pub open spec fn vectors_fit(self) -> bool {
        T::width() * self.vector_len() <= usize::MAX
    }

    /// The vector that an answer of the store to a read of the `i`-th vector stands for.
    pub open spec fn vector_in(self, i: usize, reply: Option<Seq<u8>>) -> Result<
        Seq<T>,
        IndexError,
    > {
        match reply {
            None => Err(IndexError::VectorNotFound { backend: C::backend(), id: i }),
            Some(bytes) => if bytes.len() != T::width() * self.vector_len() {
                Err(
                    IndexError::ReadSize {
                        backend: C::backend(),
                        id: i,
                        actual: bytes.len() as usize,
                        expected: (T::width() * self.vector_len()) as usize,
                    },
                )
            } else {
                Ok(byte_image::words_of::<T>(bytes))
            },
        }
    }

    /// The write that stores `v` as the `i`-th vector.
    pub open spec fn set_change(self, i: usize, v: Seq<T>) -> store::Change {
        store::Change::Put { key: store::key_of(i as nat), value: byte_image::words_bytes(v) }
    }

    /// The write that a request to store `v` as the `i`-th vector leads to.
    pub open spec fn set_outcome(self, i: usize, v: Seq<T>) -> Result<store::Change, IndexError> {
        if v.len() != self.vector_len() {
            Err(IndexError::VectorDimension)
        } else if i >= self.count() {
            Err(IndexError::VectorIdOutOfRange)
        } else {
            Ok(self.set_change(i, v))
        }
    }

    /// A provider of `max_vectors` vectors and `num_start_points` start points of `dim` elements.
    pub fn new_with_config(
        max_vectors: usize,
        dim: usize,
        num_start_points: usize,
        config: C,
    ) -> (provider: Self)
        requires
            max_vectors + num_start_points <= usize::MAX,
        ensures
            provider.points() == max_vectors,
            provider.start_points() == num_start_points,
            provider.vector_len() == dim,
            provider.configuration() == config,
    {
        VectorProvider { dim, max_vectors, num_start_points, config, elements: PhantomData }
    }

    /// The number of vectors, start points excluded.
    pub fn max_vectors(&self) -> (n: usize)
        ensures
            n == self.points(),
    {
        self.max_vectors
    }

    pub fn num_start_points(&self) -> (n: usize)
        ensures
            n == self.start_points(),
    {
        self.num_start_points
    }

    /// The number of vectors, start points included.
    pub fn total(&self) -> (total: usize)
        ensures
            total == self.count(),
    {
        proof {
            use_type_invariant(self);
        }
        self.max_vectors + self.num_start_points
    }

    /// The number of elements of a vector.
    pub fn dim(&self) -> (dim: usize)
        ensures
            dim == self.vector_len(),
    {
        self.dim
    }

    pub fn config(&self) -> (config: &C)
        ensures
            *config == self.configuration(),
    {
        &self.config
    }

    /// The ids of the start points: those behind the ids of the other vectors.
    pub fn starting_points(&self) -> (ids: Result<Vec<u32>, IndexError>)
        ensures
            match (ids, ids_between(self.points(), self.count())) {
                (Ok(v), Ok(list)) => v@ == list,
                (Err(e), Err(f)) => e == f,
                _ => false,
            },
    {
        let total = self.total();
        let mut ids: Vec<u32> = Vec::new();
        let mut i: usize = self.max_vectors;
        while i < total
            invariant
                self.max_vectors <= i <= total,
                total == self.count(),
                self.max_vectors < i ==> i <= u32::MAX + 1,
                ids@.len() == i - self.max_vectors,
                forall|k: int| 0 <= k < ids@.len() ==> #[trigger] ids@[k] == (self.max_vectors
                    + k) as u32,
            decreases total - i,
        {
            if i as u64 > u32::MAX as u64 {
                return Err(IndexError::IdConversion { value: i });
            }
            ids.push(i as u32);
            i += 1;
        }
        assert(ids@ =~= Seq::new(
            (self.count() - self.max_vectors) as nat,
            |k: int| (self.max_vectors + k) as u32,
        ));
        Ok(ids)
    }

    /// The key under which the `i`-th vector is stored.
    pub fn key(&self, i: usize) -> (key: Vec<u8>)
        ensures
            key@ == store::key_of(i as nat),
    {
        store::index_key(i)
    }

    /// The write that makes `v` the `i`-th vector.
    ///
    /// It is refused where `v` has not as many elements as the vectors of the index, and where
    /// `i` is not below the number of vectors.
    pub fn set_vector_sync(&self, i: usize, v: &[T]) -> (op: Result<StoreOp, IndexError>)
        ensures
            match (op, self.set_outcome(i, v@)) {
                (Ok(op), Ok(change)) => op@ == change,
                (Err(e), Err(f)) => e == f,
                _ => false,
            },
    {
        codec::validate_set(i, self.total(), v.len(), self.dim)?;
        Ok(StoreOp::Put { key: self.key(i), value: T::to_bytes(v) })
    }

    /// The `i`-th vector, from the answer of the store to a read of its key.
    pub fn get_vector_sync(&self, i: usize, reply: Option<&[u8]>) -> (v: Result<Vec<T>, IndexError>)
        requires
            self.vectors_fit(),
        ensures
            match (v, self.vector_in(i, store::reply_bytes(reply))) {
                (Ok(v), Ok(vector)) => v@ == vector && v@.len() == self.vector_len(),
                (Err(e), Err(f)) => e == f,
                _ => false,
            },
    {
        let bytes = match reply {
            Some(bytes) => bytes,
            None => {
                return Err(IndexError::VectorNotFound { backend: C::backend_name(), id: i });
            },
        };
        let expected = T::size() * self.dim;
        codec::validate_read_size(C::backend_name(), i, bytes.len(), expected)?;
        let ghost w = T::width() as int;
        let ghost d = self.dim as int;
        proof {
            T::lemma_width();
            assert((w * d) % w == 0) by {
                vstd::arithmetic::div_mod::lemma_mod_multiples_basic(d, w);
                vstd::arithmetic::mul::lemma_mul_is_commutative(d, w);
            }
        }
        let v = T::from_bytes(bytes);
        proof {
            byte_image::lemma_words_of_bytes(v@);
            byte_image::lemma_words_bytes_len(v@);
            let n = v@.len() as int;
            assert(n == d) by (nonlinear_arith)
                requires
                    n * w == w * d,
                    w >= 1,
            ;
        }
        Ok(v)
    }

    /// Copies the `i`-th vector into `buffer`, from the answer of the store to a read of its
    /// key. On an error `buffer` stays as it was.
    pub fn get_vector_into(&self, i: usize, reply: Option<&[u8]>, buffer: &mut [T]) -> (done: Result<
        (),
        IndexError,
    >)
        requires
            self.vectors_fit(),
        ensures
            if old(buffer)@.len() != self.vector_len() {
                &&& done == Err::<(), IndexError>(
                    IndexError::BufferDimension {
                        expected: self.vector_len() as usize,
                        actual: old(buffer)@.len() as usize,
                    },
                )
                &&& final(buffer)@ == old(buffer)@
            } else {
                match (done, self.vector_in(i, store::reply_bytes(reply))) {
                    (Ok(()), Ok(vector)) => final(buffer)@ == vector,
                    (Err(e), Err(f)) => e == f && final(buffer)@ == old(buffer)@,
                    _ => false,
                }
            },
    {
        if buffer.len() != self.dim {
            return Err(
                IndexError::BufferDimension { expected: self.dim, actual: buffer.len() },
            );
        }
        let v = self.get_vector_sync(i, reply)?;
        let mut k: usize = 0;
        while k < v.len()
            invariant
                k <= v@.len() == buffer@.len(),
                forall|j: int| 0 <= j < k ==> #[trigger] buffer@[j] == v@[j],
            decreases v.len() - k,
        {
            buffer[k] = v[k];
            k += 1;
        }
        assert(buffer@ =~= v@);
        Ok(())
    }
}

/// A vector that was set is the vector that is read.
pub proof fn law_get_after_set<T: Castable, C: StoreConfig>(
    provider: VectorProvider<T, C>,
    contents: store::Contents,
    i: usize,
    v: Seq<T>,
)
    requires
        v.len() == provider.vector_len(),
    ensures
        provider.vector_in(
            i,
            store::lookup(provider.set_change(i, v).apply(contents), store::key_of(i as nat)),
        ) == Ok::<Seq<T>, IndexError>(v),
{
    byte_image::lemma_words_bytes_len(v);
    byte_image::lemma_words_of_bytes(v);
    vstd::arithmetic::mul::lemma_mul_is_commutative(provider.dim as int, T::width() as int);
}

/// Setting one vector leaves every other vector as it was.
pub proof fn law_other_vectors_are_kept<T: Castable, C: StoreConfig>(
    provider: VectorProvider<T, C>,
    contents: store::Contents,
    i: usize,
    v: Seq<T>,
    other: usize,
)
    requires
        other != i,
    ensures
        provider.vector_in(
            other,
            store::lookup(provider.set_change(i, v).apply(contents), store::key_of(other as nat)),
        ) == provider.vector_in(other, store::lookup(contents, store::key_of(other as nat))),
{
    store::lemma_keys_distinct(i as nat, other as nat);
}

/// Vectors look the same in every kind of store: what a provider writes for one kind, a provider
/// for another kind reads as the same vector.
pub proof fn law_layout_is_shared<T: Castable, C: StoreConfig, E: StoreConfig>(
    writer: VectorProvider<T, C>,
    reader: VectorProvider<T, E>,
    i: usize,
    v: Seq<T>,
    contents: store::Contents,
)
    requires
        v.len() == reader.vector_len(),
    ensures
        writer.set_change(i, v) == reader.set_change(i, v),
        reader.vector_in(
            i,
            store::lookup(writer.set_change(i, v).apply(contents), store::key_of(i as nat)),
        ) == Ok::<Seq<T>, IndexError>(v),
{
    law_get_after_set(reader, contents, i, v);
}

/// When a vector is stored, and why it is refused: its dimension is looked at before its id.
pub proof fn law_what_is_stored<T: Castable, C: StoreConfig>(
    provider: VectorProvider<T, C>,
    i: usize,
    v: Seq<T>,
)
    ensures
        provider.set_outcome(i, v) is Ok <==> v.len() == provider.vector_len() && i
            < provider.points() + provider.start_points(),
        provider.set_outcome(i, v) matches Ok(change) ==> change == provider.set_change(i, v),
        v.len() != provider.vector_len() ==> provider.set_outcome(i, v) == Err::<
            store::Change,
            IndexError,
        >(IndexError::VectorDimension),
        v.len() == provider.vector_len() && i >= provider.points() + provider.start_points()
            ==> provider.set_outcome(i, v) == Err::<store::Change, IndexError>(
            IndexError::VectorIdOutOfRange,
        ),
{
}

/// A vector takes as many bytes as its elements do, each element in its place, under the key of
/// its id.
pub proof fn law_bytes_of_a_vector<T: Castable, C: StoreConfig>(
    provider: VectorProvider<T, C>,
    contents: store::Contents,
    i: usize,
    v: Seq<T>,
    k: int,
)
    requires
        0 <= k < v.len(),
    ensures
        ({
            let value = store::lookup(
                provider.set_change(i, v).apply(contents),
                store::key_of(i as nat),
            );
            &&& value is Some
            &&& value->0.len() == v.len() * T::width()
            &&& value->0.subrange(k * T::width(), k * T::width() + T::width())
                == byte_image::native_bytes(v[k].bits(), T::width())
        }),
{
    byte_image::law_words_are_in_place(v, k);
}

/// What is read from an answer of the store: a vector of the dimension of the index if and only if
/// there is an entry of the bytes that such a vector takes, and these bytes are the ones of the
/// vector. A missing entry and one of another size are told apart.
pub proof fn law_what_is_read<T: Castable, C: StoreConfig>(
    provider: VectorProvider<T, C>,
    i: usize,
    value: Seq<u8>,
)
    requires
        value.len() <= usize::MAX,
        provider.vectors_fit(),
    ensures
        provider.vector_in(i, None) == Err::<Seq<T>, IndexError>(
            IndexError::VectorNotFound { backend: C::backend(), id: i },
        ),
        provider.vector_in(i, Some(value)) is Ok <==> value.len() == T::width()
            * provider.vector_len(),
        provider.vector_in(i, Some(value)) matches Ok(v) ==> v.len() == provider.vector_len()
            && byte_image::words_bytes(v) == value,
        provider.vector_in(i, Some(value)) matches Err(e) ==> (e matches IndexError::ReadSize {
            backend,
            id,
            actual,
            expected,
        } && backend == C::backend() && id == i && actual == value.len() && expected == T::width()
            * provider.vector_len()),
{
    T::lemma_width();
    let w = T::width() as int;
    let d = provider.vector_len() as int;
    if value.len() == T::width() * provider.vector_len() {
        assert((w * d) % w == 0) by {
            vstd::arithmetic::div_mod::lemma_mod_multiples_basic(d, w);
            vstd::arithmetic::mul::lemma_mul_is_commutative(d, w);
        }
        byte_image::lemma_words_bytes_of::<T>(value);
        let n = byte_image::words_of::<T>(value).len() as int;
        assert(n == d) by (nonlinear_arith)
            requires
                n * w == w * d,
                w >= 1,
        ;
    }
}

/// The ids of start points, as numbers, are those from the number of the other vectors on, one
/// for each. They are refused if and only if one of them is no id, and then the first such number
/// is reported.
pub proof fn law_ids_of_start_points(from: nat, to: nat)
    requires
        from <= to <= usize::MAX,
    ensures
        match ids_between(from, to) {
            Ok(ids) => {
                &&& ids.len() == to - from
                &&& forall|k: int| 0 <= k < ids.len() ==> #[trigger] ids[k] as int == from + k
            },
            Err(e) => e matches IndexError::IdConversion { value } && from <= value < to && value
                > u32::MAX && (value == from || value - 1 <= u32::MAX),
        },
        ids_between(from, to) is Ok <==> from == to || to - 1 <= u32::MAX,
{
}

} // verus!
