//! The invariant calculator: `tr_h` and the exact inputs of `cond`.
//!
//! A single computation runs its stages strictly in order: coefficient
//! sequence, Gram matrix, floating-point inversion with rounded trace. Each
//! invocation owns all of its state, so independent inputs may be computed
//! concurrently by a caller without any sharing.

use vstd::prelude::*;
use crate::coeff::coefficients;
use crate::coeff::coeffs_feasible_below;
use crate::coeff::spec_coefficient;
use crate::error::Error;
use crate::gram::build_gram;
use crate::gram::gram_entry;
use crate::gram::is_gram_of;
use crate::gram::lemma_gram_unique;
use crate::linalg::rounded_inverse_trace;
use crate::linalg::rounded_trace_of;
use crate::nt::lemma_totient_bounds;
use crate::nt::spec_totient;
use crate::nt::totient;

verus! {

/// What a run computes for each input: the trace of `H_n`, or the condition
/// number of `V_n` derived from it.
#[derive(Clone, Copy, Debug, PartialEq, Eq, Structural)]
pub enum Mode {
    Trace,
    Cond,
}

/// The input is accepted: `n` is positive and the flat `m * m` Gram buffer,
/// `m = totient(n)`, fits an addressable vector.
pub open spec fn trh_input_ok(n: nat) -> bool {
    n >= 1 && spec_totient(n) * spec_totient(n) <= usize::MAX
}

/// The whole coefficient sequence of `n` is exact and representable.
pub open spec fn coeffs_ok(n: nat) -> bool {
    coeffs_feasible_below(n, spec_totient(n))
}

/// The coefficient sequence of `n`, as the signed 64-bit values the pipeline
/// stores; its entries equal [`spec_coefficient`] whenever [`coeffs_ok`]
/// holds.
pub open spec fn spec_coeff_seq(n: nat) -> Seq<i64> {
    Seq::new(spec_totient(n), |t: int| spec_coefficient(n, t as nat) as i64)
}

/// The flat row-major Gram matrix of that sequence.
pub open spec fn spec_gram_seq(n: nat) -> Seq<i64> {
    let m = spec_totient(n) as int;
    Seq::new((m * m) as nat, |k: int| gram_entry(spec_coeff_seq(n), k / m, k % m))
}

/// What the floating-point step returns on `n`'s Gram matrix: the whole
/// pipeline's outcome once the exact stages have succeeded, a function of
/// `n` alone.
pub open spec fn spec_trace_result(n: nat) -> Option<u64> {
    rounded_trace_of(spec_gram_seq(n), spec_totient(n), n)
}

/// The result [`tr_h`] owes on an accepted input whose coefficient sequence
/// is exact: the rounded trace when the inversion succeeds, `Inversion`
/// when the external library reports failure.
pub open spec fn spec_tr_h(n: nat) -> Result<u64, Error> {
    match spec_trace_result(n) {
        Some(t) => Ok(t),
        None => Err(Error::Inversion),
    }
}

/// A vector meeting the contract of [`coefficients`] is the spec-level
/// coefficient sequence.
proof fn lemma_coeff_seq_matches(n: nat, v: Seq<i64>)
    requires
        v.len() == spec_totient(n),
        forall|t: int| 0 <= t < v.len() ==> v[t] == spec_coefficient(n, t as nat),
    ensures
        v == spec_coeff_seq(n),
{
    assert forall|t: int| 0 <= t < v.len() implies v[t] == spec_coeff_seq(n)[t] by {
        assert(spec_coefficient(n, t as nat) == v[t] as int);
        assert((v[t] as int) as i64 == v[t]);
    }
    assert(v =~= spec_coeff_seq(n));
}

/// The spec-level Gram sequence is the Gram matrix of the spec-level
/// coefficient sequence.
proof fn lemma_spec_gram_is_gram(n: nat)
    ensures
        is_gram_of(spec_gram_seq(n), spec_coeff_seq(n)),
{
    let v = spec_coeff_seq(n);
    let m = spec_totient(n) as int;
    assert(spec_gram_seq(n).len() == m * m);
    assert forall|i: int, j: int|
        0 <= i < v.len() && 0 <= j < v.len() implies spec_gram_seq(n)[i * m + j] == gram_entry(
        v,
        i,
        j,
    ) by {
        assert(0 <= i * m + j < m * m) by (nonlinear_arith)
            requires
                0 <= i < m,
                0 <= j < m,
        ;
        vstd::arithmetic::div_mod::lemma_fundamental_div_mod_converse(i * m + j, m, i, j);
        assert((i * m + j) / m == i);
        assert((i * m + j) % m == j);
    }
}

/// Everything [`tr_h`] promises of its result. Errors partition the inputs:
/// `InvalidInput` exactly when the input is rejected before numeric work,
/// `Arithmetic` exactly when the coefficient formula misbehaves (a defect of
/// the number-theory oracle), and on every other input the result is
/// [`spec_tr_h`]: the named rounded trace of `n`'s Gram matrix, or
/// `Inversion` exactly when the external inversion fails on it.
pub open spec fn tr_h_post(n: nat, r: Result<u64, Error>) -> bool {
    &&& match r {
        Ok(_) => trh_input_ok(n) && coeffs_ok(n),
        Err(e) => match e {
            Error::InvalidInput => !trh_input_ok(n),
            Error::Arithmetic => trh_input_ok(n) && !coeffs_ok(n),
            Error::Inversion => trh_input_ok(n) && coeffs_ok(n),
        },
    }
    &&& trh_input_ok(n) && coeffs_ok(n) ==> r == spec_tr_h(n)
}

/// Determinism: [`tr_h_post`] pins one result for each `n` — on a rejected
/// input the error is forced, on an exact one the result is [`spec_tr_h`] —
/// so repeated calls of [`tr_h`] on the same `n` return the same value.
pub proof fn lemma_tr_h_deterministic(n: nat, r1: Result<u64, Error>, r2: Result<u64, Error>)
    requires
        tr_h_post(n, r1),
        tr_h_post(n, r2),
    ensures
        r1 == r2,
{
}

/// The trace of `H_n = n * G_n^{-1}`, rounded to the nearest integer.
///
/// The true trace is an integer; the floating-point inversion introduces an
/// error that the rounding absorbs for moderate `n`. Precision degrades as
/// `n` grows, since `totient(n)` rows make a larger and worse-conditioned
/// matrix; results are reliable only while the inversion error stays below
/// one half.
pub fn tr_h(n: u64) -> (r: Result<u64, Error>)
    ensures
        tr_h_post(n as nat, r),
{
    if n == 0 {
        return Err(Error::InvalidInput);
    }
    proof {
        lemma_totient_bounds(n as nat);
    }
    let m64 = totient(n);
    proof {
        assert((m64 as int) * (m64 as int) <= u128::MAX) by (nonlinear_arith)
            requires
                m64 <= u64::MAX,
        ;
    }
    let mm = (m64 as u128) * (m64 as u128);
    if mm > usize::MAX as u128 {
        return Err(Error::InvalidInput);
    }
    proof {
        assert(m64 as int <= (m64 as int) * (m64 as int)) by (nonlinear_arith)
            requires
                m64 >= 1,
        ;
    }
    let m = m64 as usize;
    let v = match coefficients(n, m) {
        Ok(v) => v,
        Err(e) => { return Err(e) },
    };
    let g = build_gram(&v);
    proof {
        lemma_coeff_seq_matches(n as nat, v@);
        lemma_spec_gram_is_gram(n as nat);
        lemma_gram_unique(spec_coeff_seq(n as nat), g@, spec_gram_seq(n as nat));
        assert(g@ == spec_gram_seq(n as nat));
    }
    match rounded_inverse_trace(&g, m, n) {
        Some(t) => Ok(t),
        None => Err(Error::Inversion),
    }
}

/// The exact integer inputs of the condition-number formula
/// `cond(n) = totient(n) * sqrt(tr_h(n) / n)`: the totient of `n` and the
/// rounded trace of `H_n`. The square root runs in floating point and is
/// left to the caller; both returned values and `n` itself are nonnegative,
/// so the quotient under the root is nonnegative and the formula yields a
/// nonnegative finite number.
pub fn cond_parts(n: u64) -> (r: Result<(u64, u64), Error>)
    ensures
        match r {
            Ok(p) => trh_input_ok(n as nat) && coeffs_ok(n as nat) && p.0 == spec_totient(
                n as nat,
            ),
            Err(e) => match e {
                Error::InvalidInput => !trh_input_ok(n as nat),
                Error::Arithmetic => trh_input_ok(n as nat) && !coeffs_ok(n as nat),
                Error::Inversion => trh_input_ok(n as nat) && coeffs_ok(n as nat),
            },
        },
        trh_input_ok(n as nat) && coeffs_ok(n as nat) ==> r == (match spec_trace_result(
            n as nat,
        ) {
            Some(t) => Ok::<(u64, u64), Error>(((spec_totient(n as nat) as u64), t)),
            None => Err::<(u64, u64), Error>(Error::Inversion),
        }),
{
    let tr = match tr_h(n) {
        Ok(t) => t,
        Err(e) => { return Err(e) },
    };
    proof {
        lemma_totient_bounds(n as nat);
    }
    let phi = totient(n);
    Ok((phi, tr))
}

/// The header line of a batch table, by mode.
pub fn table_header(mode: Mode) -> (r: &'static str)
    ensures
        mode == Mode::Trace ==> r@ == "n\tTr(H_n)"@,
        mode == Mode::Cond ==> r@ == "n\tCond(V_n)"@,
{
    match mode {
        Mode::Trace => "n\tTr(H_n)",
        Mode::Cond => "n\tCond(V_n)",
    }
}

} // verus!
