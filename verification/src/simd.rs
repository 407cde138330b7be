//! Chunked variants of the three kernels, mirroring the SIMD reduction.
//!
//! Each outer iteration covers one 16-element chunk: four 4-lane registers'
//! worth of fused multiply-adds into 16 independent lane accumulators. The
//! four registers are then reduced pairwise, their sums combined left to
//! right, and the remaining tail elements folded in one at a time — exactly
//! the terms of [`crate::model`], and therefore bit-identical to the scalar
//! reference in [`crate::scalar`] on every input.

use vstd::arithmetic::div_mod::lemma_div_multiples_vanish;
use vstd::prelude::*;

use crate::bits::is_nan_bits;
use crate::model::{
    cosine_spec, dot_chunk_sum, dot_lane, dot_similarity_spec, dot_sum_at, euclid_chunk_sum,
    euclid_distance_spec, euclid_lane, euclid_sum_at, euclid_total, normalized_spec, norm_sq_spec,
    split_point,
};
use crate::bits::f32_lt;
use crate::ops::{f32_add, f32_div, f32_mul, f32_mul_add, f32_sqrt, f32_sub};
use crate::scalar::zero_lanes;

verus! {

/// Chunked Euclidean (L2) distance. Returns exactly the same bit pattern
/// as [`crate::scalar::euclid_distance`]: both meet
/// `r == euclid_distance_spec(v1, v2)`, which pins the full reduction
/// order. The result is never negative.
pub fn euclid_distance_fast(v1: &Vec<u32>, v2: &Vec<u32>) -> (r: u32)
    requires
        v1@.len() == v2@.len(),
    ensures
        r == euclid_distance_spec(v1@, v2@),
        is_nan_bits(r) || r < 0x8000_0000,
{
    let n: usize = v1.len();
    let m: usize = n - (n % 16);
    let mut acc: Vec<u32> = zero_lanes();
    let mut i: usize = 0;
    let ghost mut c: int = 0;
    while i < m
        invariant
            v1@.len() == n,
            v2@.len() == n,
            m == split_point(n as int),
            i <= m,
            i as int == 16 * c,
            acc@.len() == 16,
            forall|t: int| 0 <= t < 16 ==> #[trigger] acc@[t] == euclid_lane(v1@, v2@, t, c),
        decreases m - i,
    {
        let mut j: usize = 0;
        while j < 16
            invariant
                v1@.len() == n,
                v2@.len() == n,
                m == split_point(n as int),
                i < m,
                i as int == 16 * c,
                i + 16 <= m,
                j <= 16,
                acc@.len() == 16,
                forall|t: int| j <= t < 16 ==> #[trigger] acc@[t] == euclid_lane(v1@, v2@, t, c),
                forall|t: int|
                    0 <= t < j ==> #[trigger] acc@[t] == euclid_lane(v1@, v2@, t, c + 1),
            decreases 16 - j,
        {
            let idx: usize = i + j;
            let d: u32 = f32_sub(v1[idx], v2[idx]);
            let s: u32 = f32_mul_add(d, d, acc[j]);
            proof {
                assert(16 * ((c + 1) - 1) + j as int == idx as int);
                assert(euclid_lane(v1@, v2@, j as int, c + 1) == s);
            }
            acc[j] = s;
            j += 1;
        }
        i += 16;
        proof {
            c = c + 1;
        }
    }
    proof {
        assert(m as int == 16 * c);
        lemma_div_multiples_vanish(c, 16);
        assert(split_point(n as int) / 16 == c);
    }
    let q0: u32 = f32_add(f32_add(acc[0], acc[1]), f32_add(acc[2], acc[3]));
    let q1: u32 = f32_add(f32_add(acc[4], acc[5]), f32_add(acc[6], acc[7]));
    let q2: u32 = f32_add(f32_add(acc[8], acc[9]), f32_add(acc[10], acc[11]));
    let q3: u32 = f32_add(f32_add(acc[12], acc[13]), f32_add(acc[14], acc[15]));
    let mut s: u32 = f32_add(f32_add(f32_add(q0, q1), q2), q3);
    proof {
        assert(s == euclid_chunk_sum(v1@, v2@, c));
        assert(s == euclid_sum_at(v1@, v2@, m as int));
    }
    let mut t: usize = m;
    while t < n
        invariant
            v1@.len() == n,
            v2@.len() == n,
            m == split_point(n as int),
            m <= t <= n,
            s == euclid_sum_at(v1@, v2@, t as int),
        decreases n - t,
    {
        let d: u32 = f32_sub(v1[t], v2[t]);
        let sq: u32 = f32_mul(d, d);
        let s2: u32 = f32_add(s, sq);
        proof {
            assert(euclid_sum_at(v1@, v2@, t as int + 1) == s2);
        }
        s = s2;
        t += 1;
    }
    let a: u32 = crate::bits::abs_bits(s);
    let r: u32 = f32_sqrt(a);
    proof {
        assert(s == euclid_total(v1@, v2@));
    }
    r
}

/// Chunked dot-product similarity. Returns exactly the same bit pattern as
/// [`crate::scalar::dot_similarity`]: both meet
/// `r == dot_similarity_spec(v1, v2)`.
pub fn dot_similarity_fast(v1: &Vec<u32>, v2: &Vec<u32>) -> (r: u32)
    requires
        v1@.len() == v2@.len(),
    ensures
        r == dot_similarity_spec(v1@, v2@),
{
    let n: usize = v1.len();
    let m: usize = n - (n % 16);
    let mut acc: Vec<u32> = zero_lanes();
    let mut i: usize = 0;
    let ghost mut c: int = 0;
    while i < m
        invariant
            v1@.len() == n,
            v2@.len() == n,
            m == split_point(n as int),
            i <= m,
            i as int == 16 * c,
            acc@.len() == 16,
            forall|t: int| 0 <= t < 16 ==> #[trigger] acc@[t] == dot_lane(v1@, v2@, t, c),
        decreases m - i,
    {
        let mut j: usize = 0;
        while j < 16
            invariant
                v1@.len() == n,
                v2@.len() == n,
                m == split_point(n as int),
                i < m,
                i as int == 16 * c,
                i + 16 <= m,
                j <= 16,
                acc@.len() == 16,
                forall|t: int| j <= t < 16 ==> #[trigger] acc@[t] == dot_lane(v1@, v2@, t, c),
                forall|t: int| 0 <= t < j ==> #[trigger] acc@[t] == dot_lane(v1@, v2@, t, c + 1),
            decreases 16 - j,
        {
            let idx: usize = i + j;
            let s: u32 = f32_mul_add(v1[idx], v2[idx], acc[j]);
            proof {
                assert(16 * ((c + 1) - 1) + j as int == idx as int);
                assert(dot_lane(v1@, v2@, j as int, c + 1) == s);
            }
            acc[j] = s;
            j += 1;
        }
        i += 16;
        proof {
            c = c + 1;
        }
    }
    proof {
        assert(m as int == 16 * c);
        lemma_div_multiples_vanish(c, 16);
        assert(split_point(n as int) / 16 == c);
    }
    let q0: u32 = f32_add(f32_add(acc[0], acc[1]), f32_add(acc[2], acc[3]));
    let q1: u32 = f32_add(f32_add(acc[4], acc[5]), f32_add(acc[6], acc[7]));
    let q2: u32 = f32_add(f32_add(acc[8], acc[9]), f32_add(acc[10], acc[11]));
    let q3: u32 = f32_add(f32_add(acc[12], acc[13]), f32_add(acc[14], acc[15]));
    let mut s: u32 = f32_add(f32_add(f32_add(q0, q1), q2), q3);
    proof {
        assert(s == dot_chunk_sum(v1@, v2@, c));
        assert(s == dot_sum_at(v1@, v2@, m as int));
    }
    let mut t: usize = m;
    while t < n
        invariant
            v1@.len() == n,
            v2@.len() == n,
            m == split_point(n as int),
            m <= t <= n,
            s == dot_sum_at(v1@, v2@, t as int),
        decreases n - t,
    {
        let p: u32 = f32_mul(v1[t], v2[t]);
        let s2: u32 = f32_add(s, p);
        proof {
            assert(dot_sum_at(v1@, v2@, t as int + 1) == s2);
        }
        s = s2;
        t += 1;
    }
    s
}

/// Chunked in-place L2 normalization (cosine preprocessing). Leaves the
/// vector exactly as [`crate::scalar::cosine_preprocess`] would: both meet
/// `final(v) == cosine_spec(old(v))`, untouched when the squared norm
/// compares below the machine epsilon, rescaled to unit norm otherwise.
/// The second clause is the zero-guard law: an all-zeros vector of any
/// length comes back unchanged.
pub fn cosine_preprocess_fast(v: &mut Vec<u32>)
    ensures
        final(v)@ == cosine_spec(old(v)@),
        (forall|t: int| 0 <= t < old(v)@.len() ==> old(v)@[t] == 0u32) ==> final(v)@ == old(v)@,
{
    let n: usize = v.len();
    let m: usize = n - (n % 16);
    let ghost w = v@;
    let ghost zeroed = forall|t: int| 0 <= t < w.len() ==> w[t] == 0u32;
    let mut acc: Vec<u32> = zero_lanes();
    let mut i: usize = 0;
    let ghost mut c: int = 0;
    while i < m
        invariant
            v@ == w,
            w.len() == n,
            m == split_point(n as int),
            i <= m,
            i as int == 16 * c,
            acc@.len() == 16,
            forall|t: int| 0 <= t < 16 ==> #[trigger] acc@[t] == dot_lane(w, w, t, c),
            zeroed == (forall|t: int| 0 <= t < w.len() ==> w[t] == 0u32),
            zeroed ==> forall|t: int| 0 <= t < 16 ==> #[trigger] acc@[t] == 0u32,
        decreases m - i,
    {
        let mut j: usize = 0;
        while j < 16
            invariant
                v@ == w,
                w.len() == n,
                m == split_point(n as int),
                i < m,
                i as int == 16 * c,
                i + 16 <= m,
                j <= 16,
                acc@.len() == 16,
                forall|t: int| j <= t < 16 ==> #[trigger] acc@[t] == dot_lane(w, w, t, c),
                forall|t: int| 0 <= t < j ==> #[trigger] acc@[t] == dot_lane(w, w, t, c + 1),
                zeroed == (forall|t: int| 0 <= t < w.len() ==> w[t] == 0u32),
                zeroed ==> forall|t: int| 0 <= t < 16 ==> #[trigger] acc@[t] == 0u32,
            decreases 16 - j,
        {
            let idx: usize = i + j;
            let x: u32 = v[idx];
            let s: u32 = f32_mul_add(x, x, acc[j]);
            proof {
                assert(16 * ((c + 1) - 1) + j as int == idx as int);
                assert(dot_lane(w, w, j as int, c + 1) == s);
                if zeroed {
                    assert(x == 0);
                    assert(s == 0);
                }
            }
            acc[j] = s;
            j += 1;
        }
        i += 16;
        proof {
            c = c + 1;
        }
    }
    proof {
        assert(m as int == 16 * c);
        lemma_div_multiples_vanish(c, 16);
        assert(split_point(n as int) / 16 == c);
    }
    let q0: u32 = f32_add(f32_add(acc[0], acc[1]), f32_add(acc[2], acc[3]));
    let q1: u32 = f32_add(f32_add(acc[4], acc[5]), f32_add(acc[6], acc[7]));
    let q2: u32 = f32_add(f32_add(acc[8], acc[9]), f32_add(acc[10], acc[11]));
    let q3: u32 = f32_add(f32_add(acc[12], acc[13]), f32_add(acc[14], acc[15]));
    let mut s: u32 = f32_add(f32_add(f32_add(q0, q1), q2), q3);
    proof {
        assert(s == dot_chunk_sum(w, w, c));
        assert(s == dot_sum_at(w, w, m as int));
    }
    let mut t: usize = m;
    while t < n
        invariant
            v@ == w,
            w.len() == n,
            m == split_point(n as int),
            m <= t <= n,
            s == dot_sum_at(w, w, t as int),
            zeroed == (forall|tt: int| 0 <= tt < w.len() ==> w[tt] == 0u32),
            zeroed ==> s == 0,
        decreases n - t,
    {
        let x: u32 = v[t];
        let sq: u32 = f32_mul(x, x);
        let s2: u32 = f32_add(s, sq);
        proof {
            assert(dot_sum_at(w, w, t as int + 1) == s2);
            if zeroed {
                assert(s2 == 0);
            }
        }
        s = s2;
        t += 1;
    }
    proof {
        assert(s == norm_sq_spec(w));
        if zeroed {
            crate::bits::lemma_zero_lt_epsilon();
        }
    }
    let small: bool = f32_lt(s, crate::bits::EPSILON_BITS);
    if small {
        proof {
            assert(cosine_spec(w) == w);
        }
        return ;
    }
    let norm: u32 = f32_sqrt(s);
    let mut j: usize = 0;
    while j < n
        invariant
            v@.len() == n,
            w.len() == n,
            norm == crate::ops::sqrt_bits(norm_sq_spec(w)),
            !crate::bits::lt_bits(norm_sq_spec(w), crate::bits::EPSILON_BITS),
            j <= n,
            forall|t: int| 0 <= t < j ==> #[trigger] v@[t] == crate::ops::div_bits(w[t], norm),
            forall|t: int| j <= t < n ==> #[trigger] v@[t] == w[t],
        decreases n - j,
    {
        let x: u32 = v[j];
        let y: u32 = f32_div(x, norm);
        v[j] = y;
        j += 1;
    }
    proof {
        assert(v@ =~= normalized_spec(w));
    }
}

} // verus!
