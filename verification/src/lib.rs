//! Distance kernels over IEEE 754 binary32 vectors, computed on raw bit
//! patterns.
//!
//! The library provides three numeric kernels — Euclidean (L2) distance,
//! dot-product similarity, and in-place L2 normalization (cosine
//! preprocessing) — each in two variants: a scalar reference that walks the
//! elements one at a time, and a chunked variant that mirrors a 16-wide,
//! 4-accumulator SIMD reduction. Both variants of a kernel are proved to
//! return the exact same bit pattern: the one given by the reduction-order
//! model in [`model`].
//!
//! Every value is an IEEE 754 binary32 number carried as its `u32` bit
//! pattern; the arithmetic itself is done by software floating-point
//! routines behind the trusted items in [`ops`].

pub mod api;
pub mod bits;
pub mod model;
pub mod ops;
pub mod scalar;
pub mod simd;
