//! The distance metric of an index, which is carried and never looked into.

use vstd::prelude::*;

verus! {

/// `diskann_vector::distance::Metric`.
#[verifier::external_type_specification]
#[verifier::external_body]
pub struct ExMetric(diskann_vector::distance::Metric);

} // verus!
