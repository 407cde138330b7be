//! Scalar reference implementations of the three kernels.
//!
//! These walk the input one element at a time, yet fold into the same 16
//! lane accumulators as the chunked variants in [`crate::simd`], so both
//! return bit-identical results: floating-point addition is not
//! associative, and keeping the reduction order is what makes the chunked
//! variants checkable against this reference.

use vstd::arithmetic::div_mod::{
    lemma_div_multiples_vanish, lemma_fundamental_div_mod, lemma_mod_multiples_basic,
};
use vstd::prelude::*;

use crate::bits::{abs_bits, is_nan_bits};
use crate::model::{
    all_finite, cosine_spec, dot_chunk_sum, dot_lane, dot_similarity_spec, dot_sum_at,
    euclid_chunk_sum, euclid_distance_spec, euclid_lane, euclid_sum_at, euclid_total, no_nans,
    normalized_spec, norm_sq_spec, split_point,
};
use crate::bits::f32_lt;
use crate::ops::{f32_add, f32_div, f32_mul, f32_mul_add, f32_sqrt, f32_sub};

verus! {

/// How many chunks lane `t` has absorbed once the scalar walk stands at
/// element `i`: the lanes below `i % 16` have already seen the current
/// chunk, the others have not.
pub open spec fn lanes_done(i: int, t: int) -> int {
    if t < i % 16 {
        i / 16 + 1
    } else {
        i / 16
    }
}

/// A vector of sixteen zeroed lane accumulators.
pub(crate) fn zero_lanes() -> (acc: Vec<u32>)
    ensures
        acc@.len() == 16,
        forall|t: int| 0 <= t < 16 ==> acc@[t] == 0u32,
{
    let mut acc: Vec<u32> = Vec::new();
    let mut k: usize = 0;
    while k < 16
        invariant
            acc@.len() == k,
            k <= 16,
            forall|t: int| 0 <= t < k ==> acc@[t] == 0u32,
        decreases 16 - k,
    {
        acc.push(0u32);
        k += 1;
    }
    acc
}

/// Scalar Euclidean (L2) distance between two equal-length vectors of
/// binary32 bit patterns: `sqrt(abs(sum((v1 - v2)^2)))` in the fixed
/// reduction order of [`crate::model`].
///
/// Beyond pinning the result, the contract carries three laws: swapping
/// the arguments does not change the distance (for vectors free of NaNs),
/// the distance of a finite vector to itself is exactly `+0`, and the
/// result is never negative.
pub fn euclid_distance(v1: &Vec<u32>, v2: &Vec<u32>) -> (r: u32)
    requires
        v1@.len() == v2@.len(),
    ensures
        r == euclid_distance_spec(v1@, v2@),
        no_nans(v1@) && no_nans(v2@) ==> euclid_distance_spec(v1@, v2@) == euclid_distance_spec(
            v2@,
            v1@,
        ),
        v1@ == v2@ && all_finite(v1@) ==> r == 0,
        is_nan_bits(r) || r < 0x8000_0000,
{
    let n: usize = v1.len();
    let m: usize = n - (n % 16);
    let mut acc: Vec<u32> = zero_lanes();
    let mut i: usize = 0;
    while i < m
        invariant
            v1@.len() == n,
            v2@.len() == n,
            m == split_point(n as int),
            i <= m,
            acc@.len() == 16,
            forall|t: int|
                0 <= t < 16 ==> #[trigger] acc@[t] == euclid_lane(
                    v1@,
                    v2@,
                    t,
                    lanes_done(i as int, t),
                ),
            no_nans(v1@) && no_nans(v2@) ==> forall|t: int|
                0 <= t < 16 ==> #[trigger] acc@[t] == euclid_lane(
                    v2@,
                    v1@,
                    t,
                    lanes_done(i as int, t),
                ),
            v1@ == v2@ && all_finite(v1@) ==> forall|t: int|
                0 <= t < 16 ==> #[trigger] acc@[t] == 0u32,
        decreases m - i,
    {
        let lane: usize = i % 16;
        let a: u32 = v1[i];
        let b: u32 = v2[i];
        let d: u32 = f32_sub(a, b);
        let s: u32 = f32_mul_add(d, d, acc[lane]);
        proof {
            lemma_fundamental_div_mod(i as int, 16);
            let c = i as int / 16;
            assert(16 * ((c + 1) - 1) + lane as int == i as int);
            assert(euclid_lane(v1@, v2@, lane as int, c + 1) == s);
            if no_nans(v1@) && no_nans(v2@) {
                // Whether the two elements are equal bit for bit (then the
                // swapped term is literally the same) or not (then the
                // swapped difference is the exact negation, which squares
                // to the same product), the swapped lane gets the same bits.
                assert(euclid_lane(v2@, v1@, lane as int, c + 1) == s);
            }
            if v1@ == v2@ && all_finite(v1@) {
                assert(d == 0);
                assert(s == 0);
            }
        }
        acc[lane] = s;
        i += 1;
        proof {
            lemma_fundamental_div_mod(i as int - 1, 16);
            assert forall|t: int| 0 <= t < 16 implies #[trigger] acc@[t] == euclid_lane(
                v1@,
                v2@,
                t,
                lanes_done(i as int, t),
            ) by {
                assert(lanes_done(i as int, t) == if t == lane as int {
                    (i as int - 1) / 16 + 1
                } else {
                    lanes_done(i as int - 1, t)
                });
            }
        }
    }
    proof {
        lemma_fundamental_div_mod(n as int, 16);
        lemma_mod_multiples_basic(n as int / 16, 16);
        lemma_div_multiples_vanish(n as int / 16, 16);
        assert(m as int % 16 == 0 && m as int / 16 == n as int / 16);
        assert(forall|t: int|
            0 <= t < 16 ==> lanes_done(m as int, t) == split_point(n as int) / 16);
    }
    let q0: u32 = f32_add(f32_add(acc[0], acc[1]), f32_add(acc[2], acc[3]));
    let q1: u32 = f32_add(f32_add(acc[4], acc[5]), f32_add(acc[6], acc[7]));
    let q2: u32 = f32_add(f32_add(acc[8], acc[9]), f32_add(acc[10], acc[11]));
    let q3: u32 = f32_add(f32_add(acc[12], acc[13]), f32_add(acc[14], acc[15]));
    let mut s: u32 = f32_add(f32_add(f32_add(q0, q1), q2), q3);
    let ghost cc = split_point(n as int) / 16;
    proof {
        assert(s == euclid_chunk_sum(v1@, v2@, cc));
        assert(s == euclid_sum_at(v1@, v2@, m as int));
        if no_nans(v1@) && no_nans(v2@) {
            assert(euclid_chunk_sum(v2@, v1@, cc) == s);
            assert(euclid_sum_at(v2@, v1@, m as int) == s);
        }
    }
    let mut t: usize = m;
    while t < n
        invariant
            v1@.len() == n,
            v2@.len() == n,
            m == split_point(n as int),
            m <= t <= n,
            s == euclid_sum_at(v1@, v2@, t as int),
            no_nans(v1@) && no_nans(v2@) ==> s == euclid_sum_at(v2@, v1@, t as int),
            v1@ == v2@ && all_finite(v1@) ==> s == 0,
        decreases n - t,
    {
        let a: u32 = v1[t];
        let b: u32 = v2[t];
        let d: u32 = f32_sub(a, b);
        let sq: u32 = f32_mul(d, d);
        let s2: u32 = f32_add(s, sq);
        proof {
            assert(euclid_sum_at(v1@, v2@, t as int + 1) == s2);
            if no_nans(v1@) && no_nans(v2@) {
                assert(euclid_sum_at(v2@, v1@, t as int + 1) == s2);
            }
            if v1@ == v2@ && all_finite(v1@) {
                assert(s2 == 0);
            }
        }
        s = s2;
        t += 1;
    }
    let a: u32 = abs_bits(s);
    let r: u32 = f32_sqrt(a);
    proof {
        assert(s == euclid_total(v1@, v2@));
        assert(r == euclid_distance_spec(v1@, v2@));
        if no_nans(v1@) && no_nans(v2@) {
            assert(euclid_total(v2@, v1@) == s);
        }
    }
    r
}

/// Scalar dot-product similarity of two equal-length vectors of binary32
/// bit patterns: `sum(v1 * v2)` in the fixed reduction order of
/// [`crate::model`]. No final transform, so the result may carry any sign.
///
/// The contract also carries the symmetry law: swapping the arguments does
/// not change the product (for vectors free of NaNs).
pub fn dot_similarity(v1: &Vec<u32>, v2: &Vec<u32>) -> (r: u32)
    requires
        v1@.len() == v2@.len(),
    ensures
        r == dot_similarity_spec(v1@, v2@),
        no_nans(v1@) && no_nans(v2@) ==> dot_similarity_spec(v1@, v2@) == dot_similarity_spec(
            v2@,
            v1@,
        ),
{
    let n: usize = v1.len();
    let m: usize = n - (n % 16);
    let mut acc: Vec<u32> = zero_lanes();
    let mut i: usize = 0;
    while i < m
        invariant
            v1@.len() == n,
            v2@.len() == n,
            m == split_point(n as int),
            i <= m,
            acc@.len() == 16,
            forall|t: int|
                0 <= t < 16 ==> #[trigger] acc@[t] == dot_lane(v1@, v2@, t, lanes_done(i as int, t)),
            no_nans(v1@) && no_nans(v2@) ==> forall|t: int|
                0 <= t < 16 ==> #[trigger] acc@[t] == dot_lane(v2@, v1@, t, lanes_done(i as int, t)),
        decreases m - i,
    {
        let lane: usize = i % 16;
        let a: u32 = v1[i];
        let b: u32 = v2[i];
        let s: u32 = f32_mul_add(a, b, acc[lane]);
        proof {
            lemma_fundamental_div_mod(i as int, 16);
            let c = i as int / 16;
            assert(16 * ((c + 1) - 1) + lane as int == i as int);
            assert(dot_lane(v1@, v2@, lane as int, c + 1) == s);
            if no_nans(v1@) && no_nans(v2@) {
                assert(dot_lane(v2@, v1@, lane as int, c + 1) == s);
            }
        }
        acc[lane] = s;
        i += 1;
        proof {
            lemma_fundamental_div_mod(i as int - 1, 16);
            assert forall|t: int| 0 <= t < 16 implies #[trigger] acc@[t] == dot_lane(
                v1@,
                v2@,
                t,
                lanes_done(i as int, t),
            ) by {
                assert(lanes_done(i as int, t) == if t == lane as int {
                    (i as int - 1) / 16 + 1
                } else {
                    lanes_done(i as int - 1, t)
                });
            }
        }
    }
    proof {
        lemma_fundamental_div_mod(n as int, 16);
        lemma_mod_multiples_basic(n as int / 16, 16);
        lemma_div_multiples_vanish(n as int / 16, 16);
        assert(forall|t: int|
            0 <= t < 16 ==> lanes_done(m as int, t) == split_point(n as int) / 16);
    }
    let q0: u32 = f32_add(f32_add(acc[0], acc[1]), f32_add(acc[2], acc[3]));
    let q1: u32 = f32_add(f32_add(acc[4], acc[5]), f32_add(acc[6], acc[7]));
    let q2: u32 = f32_add(f32_add(acc[8], acc[9]), f32_add(acc[10], acc[11]));
    let q3: u32 = f32_add(f32_add(acc[12], acc[13]), f32_add(acc[14], acc[15]));
    let mut s: u32 = f32_add(f32_add(f32_add(q0, q1), q2), q3);
    let ghost cc = split_point(n as int) / 16;
    proof {
        assert(s == dot_chunk_sum(v1@, v2@, cc));
        assert(s == dot_sum_at(v1@, v2@, m as int));
        if no_nans(v1@) && no_nans(v2@) {
            assert(dot_chunk_sum(v2@, v1@, cc) == s);
            assert(dot_sum_at(v2@, v1@, m as int) == s);
        }
    }
    let mut t: usize = m;
    while t < n
        invariant
            v1@.len() == n,
            v2@.len() == n,
            m == split_point(n as int),
            m <= t <= n,
            s == dot_sum_at(v1@, v2@, t as int),
            no_nans(v1@) && no_nans(v2@) ==> s == dot_sum_at(v2@, v1@, t as int),
        decreases n - t,
    {
        let a: u32 = v1[t];
        let b: u32 = v2[t];
        let p: u32 = f32_mul(a, b);
        let s2: u32 = f32_add(s, p);
        proof {
            assert(dot_sum_at(v1@, v2@, t as int + 1) == s2);
            if no_nans(v1@) && no_nans(v2@) {
                assert(dot_sum_at(v2@, v1@, t as int + 1) == s2);
            }
        }
        s = s2;
        t += 1;
    }
    s
}

/// Scalar in-place L2 normalization (cosine preprocessing): computes the
/// squared norm `sum(v^2)` in the fixed reduction order, leaves the vector
/// untouched when that sum compares below the machine epsilon (so a
/// near-zero vector is never divided, which would amplify noise or produce
/// infinities), and otherwise divides every element by the norm, in index
/// order.
///
/// The second clause is the zero-guard law: an all-zeros vector of any
/// length comes back unchanged.
pub fn cosine_preprocess(v: &mut Vec<u32>)
    ensures
        final(v)@ == cosine_spec(old(v)@),
        (forall|t: int| 0 <= t < old(v)@.len() ==> old(v)@[t] == 0u32) ==> final(v)@ == old(v)@,
{
    let n: usize = v.len();
    let m: usize = n - (n % 16);
    let ghost w = v@;
    let ghost zeroed = forall|t: int| 0 <= t < w.len() ==> w[t] == 0u32;
    let mut acc: Vec<u32> = zero_lanes();
    let mut i: usize = 0;
    while i < m
        invariant
            v@ == w,
            w.len() == n,
            m == split_point(n as int),
            i <= m,
            acc@.len() == 16,
            forall|t: int|
                0 <= t < 16 ==> #[trigger] acc@[t] == dot_lane(w, w, t, lanes_done(i as int, t)),
            zeroed == (forall|t: int| 0 <= t < w.len() ==> w[t] == 0u32),
            zeroed ==> forall|t: int| 0 <= t < 16 ==> #[trigger] acc@[t] == 0u32,
        decreases m - i,
    {
        let lane: usize = i % 16;
        let x: u32 = v[i];
        let s: u32 = f32_mul_add(x, x, acc[lane]);
        proof {
            lemma_fundamental_div_mod(i as int, 16);
            let c = i as int / 16;
            assert(16 * ((c + 1) - 1) + lane as int == i as int);
            assert(dot_lane(w, w, lane as int, c + 1) == s);
            if zeroed {
                assert(x == 0);
                assert(s == 0);
            }
        }
        acc[lane] = s;
        i += 1;
        proof {
            lemma_fundamental_div_mod(i as int - 1, 16);
            assert forall|t: int| 0 <= t < 16 implies #[trigger] acc@[t] == dot_lane(
                w,
                w,
                t,
                lanes_done(i as int, t),
            ) by {
                assert(lanes_done(i as int, t) == if t == lane as int {
                    (i as int - 1) / 16 + 1
                } else {
                    lanes_done(i as int - 1, t)
                });
            }
        }
    }
    proof {
        lemma_fundamental_div_mod(n as int, 16);
        lemma_mod_multiples_basic(n as int / 16, 16);
        lemma_div_multiples_vanish(n as int / 16, 16);
        assert(forall|t: int|
            0 <= t < 16 ==> lanes_done(m as int, t) == split_point(n as int) / 16);
    }
    let q0: u32 = f32_add(f32_add(acc[0], acc[1]), f32_add(acc[2], acc[3]));
    let q1: u32 = f32_add(f32_add(acc[4], acc[5]), f32_add(acc[6], acc[7]));
    let q2: u32 = f32_add(f32_add(acc[8], acc[9]), f32_add(acc[10], acc[11]));
    let q3: u32 = f32_add(f32_add(acc[12], acc[13]), f32_add(acc[14], acc[15]));
    let mut s: u32 = f32_add(f32_add(f32_add(q0, q1), q2), q3);
    proof {
        assert(s == dot_chunk_sum(w, w, split_point(n as int) / 16));
        assert(s == dot_sum_at(w, w, m as int));
    }
    let mut t: usize = m;
    while t < n
        invariant
            v@ == w,
            w.len() == n,
            m == split_point(n as int),
            m <= t <= n,
            s == dot_sum_at(w, w, t as int),
            zeroed == (forall|tt: int| 0 <= tt < w.len() ==> w[tt] == 0u32),
            zeroed ==> s == 0,
        decreases n - t,
    {
        let x: u32 = v[t];
        let sq: u32 = f32_mul(x, x);
        let s2: u32 = f32_add(s, sq);
        proof {
            assert(dot_sum_at(w, w, t as int + 1) == s2);
            if zeroed {
                assert(s2 == 0);
            }
        }
        s = s2;
        t += 1;
    }
    proof {
        assert(s == norm_sq_spec(w));
        if zeroed {
            crate::bits::lemma_zero_lt_epsilon();
        }
    }
    let small: bool = f32_lt(s, crate::bits::EPSILON_BITS);
    if small {
        proof {
            assert(cosine_spec(w) == w);
        }
        return ;
    }
    let norm: u32 = f32_sqrt(s);
    let mut j: usize = 0;
    while j < n
        invariant
            v@.len() == n,
            w.len() == n,
            norm == crate::ops::sqrt_bits(norm_sq_spec(w)),
            !crate::bits::lt_bits(norm_sq_spec(w), crate::bits::EPSILON_BITS),
            j <= n,
            forall|t: int| 0 <= t < j ==> #[trigger] v@[t] == crate::ops::div_bits(
                w[t],
                norm,
            ),
            forall|t: int| j <= t < n ==> #[trigger] v@[t] == w[t],
        decreases n - j,
    {
        let x: u32 = v[j];
        let y: u32 = f32_div(x, norm);
        v[j] = y;
        j += 1;
    }
    proof {
        assert(v@ =~= normalized_spec(w));
    }
}

} // verus!
