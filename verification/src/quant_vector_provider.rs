//! The quantized vectors of an index, one entry of the store per vector.
//!
//! Compression itself is not done here. A provider knows the shape of the product-quantization
//! table: how many elements a vector has before compression and how many bytes after it.

use crate::backend::StoreConfig;
use crate::error::IndexError;
use crate::kv_codec::quant as codec;
use crate::store;
use crate::store::StoreOp;
use diskann_vector::distance::Metric;
use vstd::prelude::*;
use vstd::slice::slice_to_vec;

verus! {

/// The shape of a product-quantization table.
#[derive(Clone, Copy, Debug, PartialEq, Eq, Structural)]
pub struct PqShape {
    /// The number of elements of a vector before compression.
    pub dim: usize,
    /// The number of chunks, each of which is compressed to one byte.
    pub num_chunks: usize,
}

/// What became of a vector that was to be compressed, once it was converted to floats.
#[derive(Debug, PartialEq, Eq)]
pub struct Compressed {
    /// The number of elements of the converted vector.
    pub vf32_len: usize,
    /// The quantized vector, or why the converted vector could not be compressed.
    pub code: Result<Vec<u8>, String>,
}

/// What a vector was compressed to, or why it could not be converted to floats.
pub type Compression = Result<Compressed, String>;

/// Whether a vector of the dimension of the table was compressed to as many bytes as the table
/// has chunks.
pub open spec fn code_fits(compressed: Compression, shape: PqShape) -> bool {
    compressed matches Ok(c) ==> c.vf32_len == shape.dim ==> (c.code matches Ok(code)
        ==> code@.len() == shape.num_chunks)
}

/// Reads and writes quantized vectors.
pub struct QuantVectorProvider<C: StoreConfig> {
    config: C,
    max_vectors: usize,
    num_start_points: usize,
    pq_shape: PqShape,
    metric: Metric,
}

/// The quantized vector that an answer of the store to a read of the `i`-th vector stands for,
/// to a reader that expects `expected` bytes.
pub open spec fn quant_vector_in<C: StoreConfig>(
    i: usize,
    reply: Option<Seq<u8>>,
    expected: usize,
) -> Result<Seq<u8>, IndexError> {
    match reply {
        None => Err(IndexError::VectorNotFound { backend: C::backend(), id: i }),
        Some(bytes) => if bytes.len() != expected {
            Err(
                IndexError::ReadSize {
                    backend: C::backend(),
                    id: i,
                    actual: bytes.len() as usize,
                    expected,
                },
            )
        } else {
            Ok(bytes)
        },
    }
}

impl<C: StoreConfig> QuantVectorProvider<C> {
    /// The number of vectors, start points included.
    pub closed spec fn count(self) -> nat {
        self.max_vectors as nat + self.num_start_points as nat
    }

    /// The shape of the product-quantization table.
    pub closed spec fn shape(self) -> PqShape {
        self.pq_shape
    }

    pub closed spec fn distance_metric(self) -> Metric {
        self.metric
    }

    pub closed spec fn configuration(self) -> C {
        self.config
    }

    /// The number of vectors is a machine number.
    #[verifier::type_invariant]
    closed spec fn wf(self) -> bool {
        self.max_vectors + self.num_start_points <= usize::MAX
    }

    /// The write that stores `v` as the `i`-th quantized vector.
    pub open spec fn set_change(self, i: usize, v: Seq<u8>) -> store::Change {
        store::Change::Put { key: store::key_of(i as nat), value: v }
    }

    /// The write that a request to store the `i`-th quantized vector leads to. A vector that
    /// could not be converted is refused first, then an id out of range, then a vector of
    /// another dimension than the table has, and then one that could not be compressed.
    pub open spec fn set_outcome(self, i: usize, compressed: Compression) -> Result<
        store::Change,
        IndexError,
    > {
        match compressed {
            Err(detail) => Err(IndexError::Conversion { detail }),
            Ok(c) => if i >= self.count() {
                Err(IndexError::VectorIdOutOfRange)
            } else if c.vf32_len != self.shape().dim {
                Err(IndexError::F32Dimension)
            } else {
                match c.code {
                    Err(detail) => Err(IndexError::Compression { detail }),
                    Ok(code) => Ok(self.set_change(i, code@)),
                }
            },
        }
    }

    /// A provider of `max_vectors` vectors and `num_start_points` start points.
    pub fn new_with_config(
        dist_metric: Metric,
        max_vectors: usize,
        num_start_points: usize,
        pq_shape: PqShape,
        config: C,
    ) -> (provider: Self)
        requires
            max_vectors + num_start_points <= usize::MAX,
        ensures
            provider.distance_metric() == dist_metric,
            provider.count() == max_vectors + num_start_points,
            provider.shape() == pq_shape,
            provider.configuration() == config,
    {
        QuantVectorProvider { config, max_vectors, num_start_points, pq_shape, metric: dist_metric }
    }

    pub fn metric(&self) -> (metric: Metric)
        ensures
            metric == self.distance_metric(),
    {
        self.metric
    }

    pub fn config(&self) -> (config: &C)
        ensures
            *config == self.configuration(),
    {
        &self.config
    }

    /// The number of vectors, start points included.
    pub fn total(&self) -> (total: usize)
        ensures
            total == self.count(),
    {
        proof {
            use_type_invariant(self);
        }
        self.max_vectors + self.num_start_points
    }

    /// The number of elements of a vector before compression.
    pub fn full_dim(&self) -> (dim: usize)
        ensures
            dim == self.shape().dim,
    {
        self.pq_shape.dim
    }

    /// The number of bytes of a compressed vector.
    pub fn pq_chunks(&self) -> (chunks: usize)
        ensures
            chunks == self.shape().num_chunks,
    {
        self.pq_shape.num_chunks
    }

    /// The key under which the `i`-th vector is stored.
    pub fn key(&self, i: usize) -> (key: Vec<u8>)
        ensures
            key@ == store::key_of(i as nat),
    {
        store::index_key(i)
    }

    /// Copies the `i`-th quantized vector into `buffer`, from the answer of the store to a read
    /// of its key. On an error `buffer` stays as it was.
    pub fn get_vector_into(&self, i: usize, reply: Option<&[u8]>, buffer: &mut [u8]) -> (done:
        Result<(), IndexError>)
        ensures
            match (
                done,
                quant_vector_in::<C>(
                    i,
                    store::reply_bytes(reply),
                    old(buffer)@.len() as usize,
                ),
            ) {
                (Ok(()), Ok(vector)) => final(buffer)@ == vector,
                (Err(e), Err(f)) => e == f && final(buffer)@ == old(buffer)@,
                _ => false,
            },
    {
        let expected = buffer.len();
        let bytes = match reply {
            Some(bytes) => bytes,
            None => {
                return Err(IndexError::VectorNotFound { backend: C::backend_name(), id: i });
            },
        };
        codec::validate_read_size(C::backend_name(), i, bytes.len(), expected)?;
        let mut k: usize = 0;
        while k < bytes.len()
            invariant
                k <= bytes@.len() == buffer@.len(),
                forall|j: int| 0 <= j < k ==> #[trigger] buffer@[j] == bytes@[j],
            decreases bytes.len() - k,
        {
            buffer[k] = bytes[k];
            k += 1;
        }
        assert(buffer@ =~= bytes@);
        Ok(())
    }

    /// The `i`-th quantized vector, from the answer of the store to a read of its key.
    pub fn get_vector_sync(&self, i: usize, reply: Option<&[u8]>) -> (v: Result<
        Vec<u8>,
        IndexError,
    >)
        ensures
            match (
                v,
                quant_vector_in::<C>(i, store::reply_bytes(reply), self.shape().num_chunks),
            ) {
                (Ok(v), Ok(vector)) => v@ == vector,
                (Err(e), Err(f)) => e == f,
                _ => false,
            },
    {
        let mut value: Vec<u8> = vec![0;self.pq_chunks()];
        self.get_vector_into(i, reply, value.as_mut_slice())?;
        Ok(value)
    }

    /// The write that makes what a vector was compressed to the `i`-th quantized vector.
    ///
    /// It is refused where the vector could not be converted or compressed, where `i` is not
    /// below the number of vectors, and where the vector has not as many elements as the table
    /// compresses.
    pub fn set_vector_sync(&self, i: usize, compressed: &Compression) -> (op: Result<
        StoreOp,
        IndexError,
    >)
        requires
            i < self.count() ==> code_fits(*compressed, self.shape()),
        ensures
            match (op, self.set_outcome(i, *compressed)) {
                (Ok(op), Ok(change)) => op@ == change,
                (Err(e), Err(f)) => e == f,
                _ => false,
            },
    {
        let vf32 = match compressed {
            Ok(vf32) => vf32,
            Err(detail) => return Err(IndexError::Conversion { detail: detail.clone() }),
        };
        codec::validate_set(i, self.total(), vf32.vf32_len, self.full_dim())?;
        match &vf32.code {
            Ok(code) => Ok(StoreOp::Put { key: self.key(i), value: slice_to_vec(code.as_slice()) }),
            Err(detail) => Err(IndexError::Compression { detail: detail.clone() }),
        }
    }

    /// The write that makes `v` the `i`-th quantized vector.
    ///
    /// It is refused where `i` is not below the number of vectors, and where `v` has not as many
    /// bytes as a compressed vector.
    pub fn set_quant_vector(&self, i: usize, v: &[u8]) -> (op: Result<StoreOp, IndexError>)
        ensures
            match op {
                Ok(op) => i < self.count() && v@.len() == self.shape().num_chunks && op@
                    == self.set_change(i, v@),
                Err(e) => if i >= self.count() {
                    e == IndexError::VectorIdOutOfRange
                } else {
                    v@.len() != self.shape().num_chunks && e == IndexError::VectorDimension
                },
            },
    {
        codec::validate_set_quant(i, self.total(), v.len(), self.pq_chunks())?;
        Ok(StoreOp::Put { key: self.key(i), value: slice_to_vec(v) })
    }
}

/// A quantized vector that was set is the one that is read.
pub proof fn law_get_after_set<C: StoreConfig>(
    provider: QuantVectorProvider<C>,
    contents: store::Contents,
    i: usize,
    v: Seq<u8>,
)
    requires
        v.len() == provider.shape().num_chunks,
    ensures
        quant_vector_in::<C>(
            i,
            store::lookup(provider.set_change(i, v).apply(contents), store::key_of(i as nat)),
            provider.shape().num_chunks,
        ) == Ok::<Seq<u8>, IndexError>(v),
{
}

/// What a vector was compressed to is the quantized vector that is read, once it was stored.
pub proof fn law_get_after_set_compressed<C: StoreConfig>(
    provider: QuantVectorProvider<C>,
    contents: store::Contents,
    i: usize,
    compressed: Compression,
)
    requires
        code_fits(compressed, provider.shape()),
        provider.set_outcome(i, compressed) is Ok,
    ensures
        compressed matches Ok(c) && c.code matches Ok(code) && quant_vector_in::<C>(
            i,
            store::lookup(
                provider.set_outcome(i, compressed)->Ok_0.apply(contents),
                store::key_of(i as nat),
            ),
            provider.shape().num_chunks,
        ) == Ok::<Seq<u8>, IndexError>(code@),
{
}

/// Setting one quantized vector leaves every other one as it was.
pub proof fn law_other_vectors_are_kept<C: StoreConfig>(
    provider: QuantVectorProvider<C>,
    contents: store::Contents,
    i: usize,
    v: Seq<u8>,
    other: usize,
)
    requires
        other != i,
    ensures
        store::lookup(provider.set_change(i, v).apply(contents), store::key_of(other as nat))
            == store::lookup(contents, store::key_of(other as nat)),
{
    store::lemma_keys_distinct(i as nat, other as nat);
}

/// When what a vector was compressed to is stored, and why it is refused, the first of these that
/// holds: it was not converted, its id is out of range, it has another dimension than the table,
/// it was not compressed.
pub proof fn law_what_is_stored<C: StoreConfig>(
    provider: QuantVectorProvider<C>,
    i: usize,
    vf32_len: usize,
    code: Vec<u8>,
    detail: String,
)
    ensures
        provider.set_outcome(i, Err(detail)) == Err::<store::Change, IndexError>(
            IndexError::Conversion { detail },
        ),
        ({
            let refused = provider.set_outcome(i, Ok(Compressed { vf32_len, code: Err(detail) }));
            let stored = provider.set_outcome(i, Ok(Compressed { vf32_len, code: Ok(code) }));
            if i >= provider.count() {
                &&& refused == Err::<store::Change, IndexError>(IndexError::VectorIdOutOfRange)
                &&& stored == refused
            } else if vf32_len != provider.shape().dim {
                &&& refused == Err::<store::Change, IndexError>(IndexError::F32Dimension)
                &&& stored == refused
            } else {
                &&& refused == Err::<store::Change, IndexError>(IndexError::Compression { detail })
                &&& stored == Ok::<store::Change, IndexError>(
                    store::Change::Put { key: store::key_of(i as nat), value: code@ },
                )
            }
        }),
{
}

/// What is read from an answer of the store: its bytes if and only if there are as many as are
/// expected. A missing entry and one of another size are told apart.
pub proof fn law_what_is_read<C: StoreConfig>(i: usize, value: Seq<u8>, expected: usize)
    requires
        value.len() <= usize::MAX,
    ensures
        quant_vector_in::<C>(i, None, expected) == Err::<Seq<u8>, IndexError>(
            IndexError::VectorNotFound { backend: C::backend(), id: i },
        ),
        quant_vector_in::<C>(i, Some(value), expected) == (if value.len() == expected {
            Ok::<Seq<u8>, IndexError>(value)
        } else {
            Err(
                IndexError::ReadSize {
                    backend: C::backend(),
                    id: i,
                    actual: value.len() as usize,
                    expected,
                },
            )
        }),
{
}

} // verus!
