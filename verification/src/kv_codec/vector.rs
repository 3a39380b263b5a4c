//! Checks on stored full-precision vectors.

use crate::error::IndexError;
use vstd::prelude::*;

verus! {

/// Checks a request to store a vector of `v_len` elements as the `i`-th of `total`.
pub fn validate_set(i: usize, total: usize, v_len: usize, expected_dim: usize) -> (r: Result<
    (),
    IndexError,
>)
    ensures
        r == if v_len != expected_dim {
            Err(IndexError::VectorDimension)
        } else if i >= total {
            Err(IndexError::VectorIdOutOfRange)
        } else {
            Ok(())
        },
{
    if v_len != expected_dim {
        return Err(IndexError::VectorDimension);
    }
    if i >= total {
        return Err(IndexError::VectorIdOutOfRange);
    }
    Ok(())
}

/// Checks the number of bytes stored for the `i`-th vector. `backend` names the store in the
/// error.
pub fn validate_read_size(backend: &'static str, i: usize, actual: usize, expected: usize) -> (r:
    Result<(), IndexError>)
    ensures
        r == if actual != expected {
            Err(IndexError::ReadSize { backend, id: i, actual, expected })
        } else {
            Ok(())
        },
{
    if actual != expected {
        return Err(IndexError::ReadSize { backend, id: i, actual, expected });
    }
    Ok(())
}

} // verus!
