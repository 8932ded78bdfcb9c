//! Numeric invariants of cyclotomic Vandermonde matrices.
//!
//! For a positive integer `n`, the crate computes the trace of the integer
//! matrix `H_n = n * G_n^{-1}`, where `G_n` is the Gram matrix of the
//! Vandermonde matrix built on the primitive `n`-th roots of unity, and the
//! data needed to derive the condition number of that Vandermonde matrix.
//!
//! The Gram matrix is assembled from exact integer coefficients obtained by
//! totient and Moebius arithmetic; the inversion step runs in floating point
//! inside an external dense linear-algebra library and its trace is rounded to
//! the nearest integer. The true trace is an integer, so rounding absorbs the
//! floating-point error; precision degrades as `n` (and with it the matrix
//! dimension) grows, and results are only reliable for moderate `n`.

use vstd::prelude::*;

pub mod coeff;
pub mod engine;
pub mod error;
pub mod gram;
pub mod linalg;
pub mod nt;
pub mod parse;

verus! {

pub use crate::engine::Mode;
pub use crate::engine::cond_parts;
pub use crate::engine::table_header;
pub use crate::engine::tr_h;
pub use crate::error::Error;
pub use crate::parse::parse_line;

} // verus!
