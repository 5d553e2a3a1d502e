//! The bit-exact core of a small linear-algebra engine for ray tracing:
//! square matrices of side 2, 3 or 4 and tuples of four scalars.
//!
//! A scalar is an IEEE-754 binary32 number, held as its bit pattern. The
//! library builds, reads, transposes, cuts, encodes and decodes matrices bit
//! for bit. Where an operation needs arithmetic on scalars (a determinant, an
//! inverse, a product) the library gives a [`formula::Formula`] that says
//! what to compute and in which order; the caller computes it and hands the
//! values back where the library decides by them.

pub mod determinant;
pub mod equality;
pub mod error;
pub mod formula;
pub mod matrix;
pub mod product;
pub mod scalar;
pub mod tuple;
pub mod wire;
