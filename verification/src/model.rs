//! The reduction-order model of the three kernels.
//!
//! Floating-point addition is not associative, so the order in which partial
//! sums are combined is part of a kernel's contract. The model fixes it
//! exactly: elements `[0, m)` — with `m` the largest multiple of 16 not
//! exceeding the length — are folded into 16 independent lane accumulators
//! (four 4-lane registers), lane `j` taking the elements at index `j` modulo
//! 16. After the chunked part, each register is reduced pairwise
//! (`(l0 + l1) + (l2 + l3)`), the four register sums are added left to
//! right, and the remaining elements `[m, n)` are folded in one at a time,
//! in index order. Both the scalar and the chunked implementation of each
//! kernel are proved to return exactly these terms.

use vstd::prelude::*;

use crate::bits::{is_finite_bits, is_nan_bits, lt_bits, EPSILON_BITS};
use crate::ops::{add_bits, div_bits, mul_add_bits, mul_bits, sqrt_bits, sub_bits};

verus! {

/// Largest multiple of 16 not exceeding `n`: elements below it are folded
/// by the 16 lane accumulators, elements from it on form the scalar tail.
pub open spec fn split_point(n: int) -> int {
    n - (n % 16)
}

/// No element of the vector is a NaN.
pub open spec fn no_nans(v: Seq<u32>) -> bool {
    forall|i: int| 0 <= i < v.len() ==> !is_nan_bits(#[trigger] v[i])
}

/// Every element of the vector is finite.
pub open spec fn all_finite(v: Seq<u32>) -> bool {
    forall|i: int| 0 <= i < v.len() ==> is_finite_bits(#[trigger] v[i])
}

/// Lane `j` of the Euclidean reduction after `c` chunks: the fused
/// multiply-add fold of the squared differences at indices `j` modulo 16.
pub open spec fn euclid_lane(v1: Seq<u32>, v2: Seq<u32>, j: int, c: int) -> u32
    decreases c,
{
    if c <= 0 {
        0u32
    } else {
        let d = sub_bits(v1[16 * (c - 1) + j], v2[16 * (c - 1) + j]);
        mul_add_bits(d, d, euclid_lane(v1, v2, j, c - 1))
    }
}

/// Pairwise horizontal sum of register `k` of the Euclidean reduction:
/// `(l0 + l1) + (l2 + l3)` over its four lanes.
pub open spec fn euclid_hquad(v1: Seq<u32>, v2: Seq<u32>, k: int, c: int) -> u32 {
    add_bits(
        add_bits(euclid_lane(v1, v2, 4 * k, c), euclid_lane(v1, v2, 4 * k + 1, c)),
        add_bits(euclid_lane(v1, v2, 4 * k + 2, c), euclid_lane(v1, v2, 4 * k + 3, c)),
    )
}

/// The chunked part of the Euclidean sum: the four register sums combined
/// left to right.
pub open spec fn euclid_chunk_sum(v1: Seq<u32>, v2: Seq<u32>, c: int) -> u32 {
    add_bits(
        add_bits(
            add_bits(euclid_hquad(v1, v2, 0, c), euclid_hquad(v1, v2, 1, c)),
            euclid_hquad(v1, v2, 2, c),
        ),
        euclid_hquad(v1, v2, 3, c),
    )
}

/// The Euclidean sum after the chunked part and the tail elements below
/// index `i`, each tail term `(v1 - v2)^2` added in index order.
pub open spec fn euclid_sum_at(v1: Seq<u32>, v2: Seq<u32>, i: int) -> u32
    decreases i,
{
    let m = split_point(v1.len() as int);
    if i <= m {
        euclid_chunk_sum(v1, v2, m / 16)
    } else {
        let d = sub_bits(v1[i - 1], v2[i - 1]);
        add_bits(euclid_sum_at(v1, v2, i - 1), mul_bits(d, d))
    }
}

/// The full Euclidean reduction `sum((v1 - v2)^2)` in kernel order.
pub open spec fn euclid_total(v1: Seq<u32>, v2: Seq<u32>) -> u32 {
    euclid_sum_at(v1, v2, v1.len() as int)
}

/// The Euclidean distance: square root of the absolute value of the sum
/// (the absolute value guards a `-0.0` sum).
pub open spec fn euclid_distance_spec(v1: Seq<u32>, v2: Seq<u32>) -> u32 {
    sqrt_bits(crate::bits::abs_bits_spec(euclid_total(v1, v2)))
}

/// Lane `j` of the dot-product reduction after `c` chunks: the fused
/// multiply-add fold of the products at indices `j` modulo 16.
pub open spec fn dot_lane(v1: Seq<u32>, v2: Seq<u32>, j: int, c: int) -> u32
    decreases c,
{
    if c <= 0 {
        0u32
    } else {
        mul_add_bits(
            v1[16 * (c - 1) + j],
            v2[16 * (c - 1) + j],
            dot_lane(v1, v2, j, c - 1),
        )
    }
}

/// Pairwise horizontal sum of register `k` of the dot-product reduction.
pub open spec fn dot_hquad(v1: Seq<u32>, v2: Seq<u32>, k: int, c: int) -> u32 {
    add_bits(
        add_bits(dot_lane(v1, v2, 4 * k, c), dot_lane(v1, v2, 4 * k + 1, c)),
        add_bits(dot_lane(v1, v2, 4 * k + 2, c), dot_lane(v1, v2, 4 * k + 3, c)),
    )
}

/// The chunked part of the dot-product sum.
pub open spec fn dot_chunk_sum(v1: Seq<u32>, v2: Seq<u32>, c: int) -> u32 {
    add_bits(
        add_bits(
            add_bits(dot_hquad(v1, v2, 0, c), dot_hquad(v1, v2, 1, c)),
            dot_hquad(v1, v2, 2, c),
        ),
        dot_hquad(v1, v2, 3, c),
    )
}

/// The dot-product sum after the chunked part and the tail elements below
/// index `i`, each tail term `v1 * v2` added in index order.
pub open spec fn dot_sum_at(v1: Seq<u32>, v2: Seq<u32>, i: int) -> u32
    decreases i,
{
    let m = split_point(v1.len() as int);
    if i <= m {
        dot_chunk_sum(v1, v2, m / 16)
    } else {
        add_bits(dot_sum_at(v1, v2, i - 1), mul_bits(v1[i - 1], v2[i - 1]))
    }
}

/// The full dot-product reduction `sum(v1 * v2)` in kernel order.
pub open spec fn dot_similarity_spec(v1: Seq<u32>, v2: Seq<u32>) -> u32 {
    dot_sum_at(v1, v2, v1.len() as int)
}

/// The squared L2 norm of a vector: its dot product with itself, in the
/// same reduction order.
pub open spec fn norm_sq_spec(v: Seq<u32>) -> u32 {
    dot_similarity_spec(v, v)
}

/// The vector rescaled to unit norm: every element divided by the square
/// root of the squared norm, in index order.
pub open spec fn normalized_spec(v: Seq<u32>) -> Seq<u32> {
    Seq::new(v.len(), |i: int| div_bits(v[i], sqrt_bits(norm_sq_spec(v))))
}

/// What normalization leaves behind: the vector unchanged when its squared
/// norm compares below the machine epsilon (a near-zero vector), otherwise
/// the rescaled vector.
pub open spec fn cosine_spec(v: Seq<u32>) -> Seq<u32> {
    if lt_bits(norm_sq_spec(v), EPSILON_BITS) {
        v
    } else {
        normalized_spec(v)
    }
}

} // verus!
