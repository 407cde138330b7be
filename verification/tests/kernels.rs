use distance_kernels::api::{
    cosine_preprocess_with, dot_similarity_checked, euclid_distance_checked, Backend,
    DistanceError,
};
use distance_kernels::bits::EPSILON_BITS;
use distance_kernels::scalar::{cosine_preprocess, dot_similarity, euclid_distance};
use distance_kernels::simd::{cosine_preprocess_fast, dot_similarity_fast, euclid_distance_fast};

fn to_bits(v: &[f32]) -> Vec<u32> {
    v.iter().map(|x| x.to_bits()).collect()
}

fn to_floats(v: &[u32]) -> Vec<f32> {
    v.iter().map(|x| f32::from_bits(*x)).collect()
}

fn sample(n: usize, seed: u32) -> Vec<f32> {
    // A deterministic mix of signs and magnitudes, including fractions.
    (0..n)
        .map(|i| {
            let k = (i as f32) + (seed as f32) * 0.5;
            (k * 0.37 - 3.25) * if i % 3 == 0 { -1.0 } else { 1.0 }
        })
        .collect()
}

#[test]
fn test_spaces_neon() {
    let v1: Vec<f32> = vec![
        10., 11., 12., 13., 14., 15., 16., 17., 18., 19., 20., 21., 22., 23., 24., 25., 26., 27.,
        28., 29., 30., 31.,
    ];
    let v2: Vec<f32> = vec![
        40., 41., 42., 43., 44., 45., 46., 47., 48., 49., 50., 51., 52., 53., 54., 55., 56., 57.,
        58., 59., 60., 61.,
    ];
    let b1 = to_bits(&v1);
    let b2 = to_bits(&v2);

    let euclid_simd = euclid_distance_fast(&b1, &b2);
    let euclid = euclid_distance(&b1, &b2);
    assert_eq!(euclid_simd, euclid);

    let dot_simd = dot_similarity_fast(&b1, &b2);
    let dot = dot_similarity(&b1, &b2);
    assert_eq!(dot_simd, dot);

    let mut b1 = b1;
    let mut b1_copy = b1.clone();
    cosine_preprocess_fast(&mut b1);
    cosine_preprocess(&mut b1_copy);
    assert_eq!(b1, b1_copy);
}

#[test]
fn test_scalar_simd_equivalence_across_lengths() {
    for &n in &[0usize, 1, 15, 16, 17, 31, 32, 33, 1000] {
        let v1 = to_bits(&sample(n, 1));
        let v2 = to_bits(&sample(n, 7));
        assert_eq!(euclid_distance_fast(&v1, &v2), euclid_distance(&v1, &v2));
        assert_eq!(dot_similarity_fast(&v1, &v2), dot_similarity(&v1, &v2));
        let mut a = v1.clone();
        let mut b = v1.clone();
        cosine_preprocess_fast(&mut a);
        cosine_preprocess(&mut b);
        assert_eq!(a, b);
    }
}

#[test]
fn test_euclid_symmetry() {
    for &n in &[3usize, 22, 48] {
        let v1 = to_bits(&sample(n, 2));
        let v2 = to_bits(&sample(n, 11));
        assert_eq!(euclid_distance(&v1, &v2), euclid_distance(&v2, &v1));
        assert_eq!(euclid_distance_fast(&v1, &v2), euclid_distance_fast(&v2, &v1));
    }
}

#[test]
fn test_dot_symmetry() {
    for &n in &[3usize, 22, 48] {
        let v1 = to_bits(&sample(n, 3));
        let v2 = to_bits(&sample(n, 13));
        assert_eq!(dot_similarity(&v1, &v2), dot_similarity(&v2, &v1));
        assert_eq!(dot_similarity_fast(&v1, &v2), dot_similarity_fast(&v2, &v1));
    }
}

#[test]
fn test_euclid_self_is_zero() {
    for &n in &[0usize, 1, 16, 37] {
        let v = to_bits(&sample(n, 5));
        assert_eq!(euclid_distance(&v, &v), 0);
        assert_eq!(euclid_distance_fast(&v, &v), 0);
    }
}

#[test]
fn test_normalize_twice_is_idempotent() {
    let mut v = to_bits(&[3.0f32, 4.0]);
    cosine_preprocess(&mut v);
    let once = v.clone();
    cosine_preprocess(&mut v);
    assert_eq!(v, once);
}

#[test]
fn test_zero_guard_leaves_zero_vectors() {
    for &n in &[0usize, 5, 16, 33] {
        let mut v = vec![0.0f32.to_bits(); n];
        let orig = v.clone();
        cosine_preprocess(&mut v);
        assert_eq!(v, orig);
        let mut v = vec![0.0f32.to_bits(); n];
        cosine_preprocess_fast(&mut v);
        assert_eq!(v, orig);
    }
}

#[test]
fn test_zero_guard_near_epsilon_norm() {
    // Sixteen elements of 1e-5: the squared norm is 1.6e-9, far below the
    // machine epsilon of roughly 1.19e-7, so the vector stays untouched.
    let mut v = to_bits(&[1.0e-5f32; 16]);
    let orig = v.clone();
    cosine_preprocess(&mut v);
    assert_eq!(v, orig);
    // Sixteen elements of 1e-3: the squared norm is 1.6e-5, above the
    // machine epsilon, so the vector is rescaled.
    let mut w = to_bits(&[1.0e-3f32; 16]);
    let worig = w.clone();
    cosine_preprocess(&mut w);
    assert_ne!(w, worig);
}

#[test]
fn test_euclid_never_negative() {
    let cases: Vec<(Vec<f32>, Vec<f32>)> = vec![
        (vec![], vec![]),
        (vec![-1.0, -2.0, -3.0], vec![4.0, 5.0, 6.0]),
        (sample(22, 9), sample(22, 4)),
        (vec![-0.0, 0.0], vec![0.0, -0.0]),
    ];
    for (v1, v2) in cases {
        let r = euclid_distance(&to_bits(&v1), &to_bits(&v2));
        assert!(f32::from_bits(r) >= 0.0);
        assert_eq!(r & 0x8000_0000, 0);
    }
}

#[test]
fn test_tail_correctness() {
    // 22 elements: one full 16-wide chunk plus a 6-element scalar tail.
    // Every difference is 30, so the distance is sqrt(22 * 900), and the
    // dot product is the independently computed sum 23661.
    let v1: Vec<f32> = (10..32).map(|i| i as f32).collect();
    let v2: Vec<f32> = (40..62).map(|i| i as f32).collect();
    let b1 = to_bits(&v1);
    let b2 = to_bits(&v2);
    let euclid = f32::from_bits(euclid_distance(&b1, &b2));
    assert_eq!(euclid, (22.0f32 * 900.0).sqrt());
    let dot = f32::from_bits(dot_similarity(&b1, &b2));
    assert_eq!(dot, 23661.0);
    assert_eq!(euclid_distance_fast(&b1, &b2), euclid_distance(&b1, &b2));
    assert_eq!(dot_similarity_fast(&b1, &b2), dot_similarity(&b1, &b2));
}

#[test]
fn test_end_to_end_scenario() {
    let mut v = to_bits(&[3.0f32, 4.0]);
    cosine_preprocess(&mut v);
    assert_eq!(to_floats(&v), vec![0.6f32, 0.8]);

    let r = euclid_distance(&to_bits(&[0.0f32, 0.0]), &to_bits(&[3.0f32, 4.0]));
    assert_eq!(f32::from_bits(r), 5.0);

    let d = dot_similarity(&to_bits(&[1.0f32, 0.0]), &to_bits(&[0.0f32, 1.0]));
    assert_eq!(f32::from_bits(d), 0.0);
}

#[test]
fn test_checked_entry_points() {
    let v1 = to_bits(&[1.0f32, 2.0]);
    let v2 = to_bits(&[3.0f32, 4.0, 5.0]);
    assert_eq!(
        euclid_distance_checked(Backend::Scalar, &v1, &v2),
        Err(DistanceError::DimensionMismatch { left: 2, right: 3 })
    );
    assert_eq!(
        dot_similarity_checked(Backend::Simd, &v1, &v2),
        Err(DistanceError::DimensionMismatch { left: 2, right: 3 })
    );
    let v3 = to_bits(&[3.0f32, 5.0, 7.0]);
    let scalar = euclid_distance_checked(Backend::Scalar, &v2, &v3).unwrap();
    let simd = euclid_distance_checked(Backend::Simd, &v2, &v3).unwrap();
    assert_eq!(scalar, simd);
    assert_eq!(scalar, euclid_distance(&v2, &v3));
    assert_eq!(
        dot_similarity_checked(Backend::Scalar, &v2, &v3).unwrap(),
        dot_similarity(&v2, &v3)
    );
    let mut a = v2.clone();
    let mut b = v2.clone();
    cosine_preprocess_with(Backend::Scalar, &mut a);
    cosine_preprocess_with(Backend::Simd, &mut b);
    assert_eq!(a, b);
    assert_eq!(a, {
        let mut c = v2.clone();
        cosine_preprocess(&mut c);
        c
    });
}

#[test]
fn test_epsilon_bits_matches_machine_epsilon() {
    assert_eq!(EPSILON_BITS, f32::EPSILON.to_bits());
}

#[test]
fn test_lt_matches_hardware_comparison() {
    let specials: Vec<f32> = vec![
        f32::NAN,
        -f32::NAN,
        f32::INFINITY,
        f32::NEG_INFINITY,
        f32::MAX,
        f32::MIN,
        1.0,
        -1.0,
        0.0,
        -0.0,
        f32::MIN_POSITIVE,
        -f32::MIN_POSITIVE,
        1.0e-40,
        -1.0e-40,
        f32::EPSILON,
    ];
    for &x in &specials {
        for &y in &specials {
            assert_eq!(
                distance_kernels::bits::f32_lt(x.to_bits(), y.to_bits()),
                x < y,
                "comparison disagrees on {x:?} < {y:?}"
            );
        }
    }
}
