//! The coefficient sequence indexing the Gram matrix.
//!
//! For `g = gcd(n, t)` the coefficient is
//! `mobius(n / g) * totient(n) / totient(n / g)`, a Ramanujan-sum-like value.
//! The underlying theory makes the division exact; a remainder would mean the
//! number-theory oracle misbehaved, so it is reported as an error rather than
//! truncated away.

use vstd::prelude::*;
use crate::error::Error;
use crate::nt::gcd;
use crate::nt::lemma_gcd_divides;
use crate::nt::lemma_gcd_le;
use crate::nt::lemma_totient_bounds;
use crate::nt::mobius;
use crate::nt::mobius_of;
use crate::nt::spec_gcd;
use crate::nt::spec_totient;
use crate::nt::totient;

verus! {

/// The cofactor `n / gcd(n, t)` whose Moebius value weighs the coefficient.
pub open spec fn spec_cofactor(n: nat, t: nat) -> nat {
    n / spec_gcd(n, t)
}

/// The coefficient formula divides exactly and its magnitude fits `i64`.
/// The underlying theory guarantees exact division for true totient values;
/// this predicate records the condition the implementation checks at run
/// time instead of truncating.
pub open spec fn coeff_feasible(n: nat, t: nat) -> bool {
    mobius_of(spec_cofactor(n, t)) == 0 || (spec_totient(n) % spec_totient(spec_cofactor(n, t))
        == 0 && spec_totient(n) / spec_totient(spec_cofactor(n, t)) <= i64::MAX)
}

/// `c_t(n) = mobius(n / g) * (totient(n) / totient(n / g))`, `g = gcd(n, t)`.
/// Under [`coeff_feasible`] the quotient is exact, so this equals
/// `mobius(n / g) * totient(n) / totient(n / g)`.
pub open spec fn spec_coefficient(n: nat, t: nat) -> int {
    mobius_of(spec_cofactor(n, t)) * ((spec_totient(n) / spec_totient(
        spec_cofactor(n, t),
    )) as int)
}

/// One coefficient of the sequence.
pub fn coefficient(t: u64, n: u64) -> (r: Result<i64, Error>)
    requires
        n >= 1,
    ensures
        r is Ok <==> coeff_feasible(n as nat, t as nat),
        r matches Ok(c) ==> c == spec_coefficient(n as nat, t as nat),
        r matches Err(e) ==> e == Error::Arithmetic,
{
    proof {
        lemma_gcd_le(n as nat, t as nat);
        lemma_gcd_divides(n as nat, t as nat);
    }
    let g = gcd(n, t);
    let q = n / g;
    proof {
        vstd::arithmetic::div_mod::lemma_div_pos_is_pos(n as int, g as int);
        vstd::arithmetic::div_mod::lemma_div_non_zero(n as int, g as int);
    }
    let mu = mobius(n, g);
    if mu == 0 {
        return Ok(0i64);
    }
    let phi_n = totient(n);
    let phi_q = totient(q);
    proof {
        lemma_totient_bounds(q as nat);
    }
    if phi_n % phi_q != 0 {
        return Err(Error::Arithmetic);
    }
    let c_abs = phi_n / phi_q;
    if c_abs > i64::MAX as u64 {
        return Err(Error::Arithmetic);
    }
    if mu == 1 {
        proof {
            assert(mobius_of(spec_cofactor(n as nat, t as nat)) == 1);
            assert(c_abs as i64 == spec_coefficient(n as nat, t as nat));
        }
        Ok(c_abs as i64)
    } else {
        proof {
            assert(mobius_of(spec_cofactor(n as nat, t as nat)) == -1);
            assert(-(c_abs as i64) == spec_coefficient(n as nat, t as nat));
        }
        Ok(-(c_abs as i64))
    }
}

/// The coefficient sequence is a function of `n` alone: any two sequences
/// whose entries all meet the contract of [`coefficient`] are equal.
pub proof fn lemma_coefficients_unique(n: nat, v1: Seq<i64>, v2: Seq<i64>)
    requires
        v1.len() == v2.len(),
        forall|t: int| 0 <= t < v1.len() ==> v1[t] == spec_coefficient(n, t as nat),
        forall|t: int| 0 <= t < v2.len() ==> v2[t] == spec_coefficient(n, t as nat),
    ensures
        v1 == v2,
{
    assert(v1 =~= v2);
}

/// Every coefficient with index below `bound` is exact and representable.
pub open spec fn coeffs_feasible_below(n: nat, bound: nat) -> bool {
    forall|t: nat| t < bound ==> #[trigger] coeff_feasible(n, t)
}

/// The whole coefficient sequence `v[0..m)`, `m = totient(n)`.
pub fn coefficients(n: u64, m: usize) -> (r: Result<Vec<i64>, Error>)
    requires
        n >= 1,
        m == spec_totient(n as nat),
    ensures
        r is Ok <==> coeffs_feasible_below(n as nat, m as nat),
        r matches Ok(v) ==> v.len() == m && forall|t: int|
            0 <= t < m ==> v@[t] == spec_coefficient(n as nat, t as nat),
        r matches Err(e) ==> e == Error::Arithmetic,
{
    let mut v: Vec<i64> = Vec::new();
    let mut t: usize = 0;
    while t < m
        invariant
            n >= 1,
            t <= m,
            v.len() == t,
            coeffs_feasible_below(n as nat, t as nat),
            forall|s: int| 0 <= s < t ==> v@[s] == spec_coefficient(n as nat, s as nat),
        decreases m - t,
    {
        match coefficient(t as u64, n) {
            Ok(c) => {
                v.push(c);
            },
            Err(e) => {
                proof {
                    assert(!coeff_feasible(n as nat, t as nat));
                }
                return Err(e);
            },
        }
        t += 1;
    }
    Ok(v)
}

} // verus!
