//! Checks on stored quantized vectors.

use crate::error::IndexError;
use vstd::prelude::*;

verus! {

/// Checks a request to compress a vector of `vf32_len` elements and to store it as the `i`-th
/// of `total`.
pub fn validate_set(i: usize, total: usize, vf32_len: usize, full_dim: usize) -> (r: Result<
    (),
    IndexError,
>)
    ensures
        r == if i >= total {
            Err(IndexError::VectorIdOutOfRange)
        } else if vf32_len != full_dim {
            Err(IndexError::F32Dimension)
        } else {
            Ok(())
        },
{
    if i >= total {
        return Err(IndexError::VectorIdOutOfRange);
    }
    if vf32_len != full_dim {
        return Err(IndexError::F32Dimension);
    }
    Ok(())
}

/// Checks a request to store a quantized vector of `v_len` bytes as the `i`-th of `total`.
pub fn validate_set_quant(i: usize, total: usize, v_len: usize, pq_chunks: usize) -> (r: Result<
    (),
    IndexError,
>)
    ensures
        r == if i >= total {
            Err(IndexError::VectorIdOutOfRange)
        } else if v_len != pq_chunks {
            Err(IndexError::VectorDimension)
        } else {
            Ok(())
        },
{
    if i >= total {
        return Err(IndexError::VectorIdOutOfRange);
    }
    if v_len != pq_chunks {
        return Err(IndexError::VectorDimension);
    }
    Ok(())
}

/// Checks the number of bytes stored for the `i`-th quantized vector. `backend` names the
/// store in the error.
pub fn validate_read_size(backend: &'static str, i: usize, actual: usize, expected: usize) -> (r:
    Result<(), IndexError>)
    ensures
        r == if actual != expected {
            Err(IndexError::ReadSize { backend, id: i, actual, expected })
        } else {
            Ok(())
        },
{
    if actual != expected {
        return Err(IndexError::ReadSize { backend, id: i, actual, expected });
    }
    Ok(())
}

} // verus!
