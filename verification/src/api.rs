//! Hardened public boundary over the kernels.
//!
//! The raw kernels take equal input lengths as a caller precondition, as
//! the pairwise reductions are meaningless otherwise. The entry points here
//! validate that precondition at run time and fail with a
//! [`DistanceError::DimensionMismatch`] carrying both lengths instead of
//! trusting the caller. The caller picks one of the two interchangeable
//! implementations per call through [`Backend`] — typically `Simd` when a
//! capability probe has confirmed support, `Scalar` otherwise — and the
//! contracts promise the same bit pattern either way.

use vstd::prelude::*;

use crate::model::{cosine_spec, dot_similarity_spec, euclid_distance_spec};

verus! {

/// Which implementation of a kernel a call runs: the scalar reference or
/// the chunked variant. Both are proved to return identical bits, so the
/// choice only matters for speed.
#[derive(Clone, Copy, Debug, PartialEq, Eq, Structural)]
pub enum Backend {
    Scalar,
    Simd,
}

/// Why a checked entry point refused to run a kernel.
#[derive(Clone, Copy, Debug, PartialEq, Eq, Structural)]
pub enum DistanceError {
    /// The two vectors of a pairwise kernel had different lengths.
    DimensionMismatch { left: usize, right: usize },
}

/// Euclidean distance with the lengths validated: `Ok` exactly when the
/// lengths agree, with the same bit pattern whichever backend runs, and
/// otherwise the mismatch error carrying both lengths.
pub fn euclid_distance_checked(backend: Backend, v1: &Vec<u32>, v2: &Vec<u32>) -> (r: Result<
    u32,
    DistanceError,
>)
    ensures
        r is Ok <==> v1@.len() == v2@.len(),
        r matches Ok(d) ==> d == euclid_distance_spec(v1@, v2@),
        r matches Err(e) ==> e == (DistanceError::DimensionMismatch {
            left: v1.len(),
            right: v2.len(),
        }),
{
    if v1.len() != v2.len() {
        return Err(DistanceError::DimensionMismatch { left: v1.len(), right: v2.len() });
    }
    match backend {
        Backend::Scalar => Ok(crate::scalar::euclid_distance(v1, v2)),
        Backend::Simd => Ok(crate::simd::euclid_distance_fast(v1, v2)),
    }
}

/// Dot-product similarity with the lengths validated: `Ok` exactly when
/// the lengths agree, with the same bit pattern whichever backend runs,
/// and otherwise the mismatch error carrying both lengths.
pub fn dot_similarity_checked(backend: Backend, v1: &Vec<u32>, v2: &Vec<u32>) -> (r: Result<
    u32,
    DistanceError,
>)
    ensures
        r is Ok <==> v1@.len() == v2@.len(),
        r matches Ok(d) ==> d == dot_similarity_spec(v1@, v2@),
        r matches Err(e) ==> e == (DistanceError::DimensionMismatch {
            left: v1.len(),
            right: v2.len(),
        }),
{
    if v1.len() != v2.len() {
        return Err(DistanceError::DimensionMismatch { left: v1.len(), right: v2.len() });
    }
    match backend {
        Backend::Scalar => Ok(crate::scalar::dot_similarity(v1, v2)),
        Backend::Simd => Ok(crate::simd::dot_similarity_fast(v1, v2)),
    }
}

/// In-place normalization through the chosen backend. There is no length
/// precondition to validate — any vector, the empty one included, is legal
/// — so this never fails; it exists so callers can dispatch all three
/// kernels through one [`Backend`] value.
pub fn cosine_preprocess_with(backend: Backend, v: &mut Vec<u32>)
    ensures
        final(v)@ == cosine_spec(old(v)@),
{
    match backend {
        Backend::Scalar => crate::scalar::cosine_preprocess(v),
        Backend::Simd => crate::simd::cosine_preprocess_fast(v),
    }
}

} // verus!
