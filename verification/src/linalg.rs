//! The floating-point step of the pipeline, behind a trusted wrapper.
//!
//! The library cannot hold floating-point values itself, so the whole step
//! from the exact integer Gram matrix to the rounded trace of
//! `H_n = n * G_n^{-1}` runs inside one wrapper around the external dense
//! linear-algebra library.

use vstd::prelude::*;

verus! {

/// What the floating-point step returns for a given flat matrix, dimension
/// and scale factor: `None` when the inversion fails, else the rounded trace
/// of the scaled inverse. The step below is pure sequential `f64` code with
/// the fixed IEEE-754 semantics Rust guarantees, so its result is a function
/// of these arguments alone, in every process and on every machine; that is
/// what this name expresses. Writing the value out would mean restating the
/// library's elimination algorithm, so it stays a name.
pub uninterp spec fn rounded_trace_of(g: Seq<i64>, m: nat, n: nat) -> Option<u64>;

/// Inverts the flat row-major `m * m` integer matrix over `f64`, scales the
/// inverse by `n` and rounds its trace to the nearest integer.
///
/// Relies on `num::ToPrimitive::to_f64` (widening of the entries to the
/// nearest float, never `None` on 64-bit integers),
/// `nalgebra::DMatrix::from_vec` (a flat buffer of `m * m` entries makes an
/// `m`-by-`m` matrix), `nalgebra::SquareMatrix::try_inverse` (`None` exactly
/// when the library finds the matrix singular), scalar multiplication and
/// `nalgebra::SquareMatrix::trace` (the sum of the diagonal), and the float
/// `round` method (rounding to the nearest integer; the final cast
/// saturates). Beyond determinism nothing is promised of the value inside
/// `Some`; callers state what holds whatever comes back.
#[verifier::external_body]
pub(crate) fn rounded_inverse_trace(entries: &Vec<i64>, m: usize, n: u64) -> (r: Option<u64>)
    requires
        entries.len() == m * m,
    ensures
        r == rounded_trace_of(entries@, m as nat, n as nat),
{
    let data: Vec<_> = entries.iter().map(|x| num::ToPrimitive::to_f64(x).unwrap()).collect();
    let g = nalgebra::DMatrix::from_vec(m, m, data);
    let h = g.try_inverse()? * num::ToPrimitive::to_f64(&n).unwrap();
    Some(h.trace().round() as u64)
}

} // verus!
