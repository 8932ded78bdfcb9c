//! Elementary number theory: greatest common divisors, Euler's totient and a
//! Moebius-type function.
//!
//! The gcd is computed and proved here; totient and Moebius values come from
//! an external number-theory library through trusted wrappers.

use vstd::prelude::*;
use vstd::arithmetic::div_mod::lemma_fundamental_div_mod;
use vstd::arithmetic::div_mod::lemma_mod_self_0;
use vstd::arithmetic::div_mod::lemma_small_mod;
use vstd::arithmetic::mul::lemma_mul_is_distributive_add_other_way;

verus! {

/// Greatest common divisor by Euclid's rule; `spec_gcd(a, 0) == a`.
pub open spec fn spec_gcd(a: nat, b: nat) -> nat
    decreases b,
{
    if b == 0 {
        a
    } else {
        spec_gcd(b, a % b)
    }
}

/// The gcd of a positive number with anything is positive.
pub proof fn lemma_gcd_pos(a: nat, b: nat)
    requires
        a >= 1,
    ensures
        spec_gcd(a, b) >= 1,
    decreases b,
{
    if b != 0 {
        lemma_gcd_pos(b, a % b);
    }
}

/// The gcd divides both of its arguments.
pub proof fn lemma_gcd_divides(a: nat, b: nat)
    requires
        a >= 1,
    ensures
        a % spec_gcd(a, b) == 0,
        b % spec_gcd(a, b) == 0,
    decreases b,
{
    if b == 0 {
        lemma_mod_self_0(a as int);
        lemma_small_mod(0, a);
    } else {
        lemma_gcd_divides(b, a % b);
        lemma_gcd_pos(b, a % b);
        let g = spec_gcd(b, a % b);
        let q = a as int / b as int;
        lemma_fundamental_div_mod(a as int, b as int);
        assert(a as int == b * q + (a % b));
        lemma_fundamental_div_mod(b as int, g as int);
        assert(b as int == g * (b as int / g as int));
        let kb = b as int / g as int;
        lemma_fundamental_div_mod((a % b) as int, g as int);
        let kr = (a % b) as int / g as int;
        assert((a % b) as int == g * kr);
        assert(b * q == g * (kb * q)) by (nonlinear_arith)
            requires b as int == g * kb;
        assert(a as int == g * (kb * q) + g * kr);
        lemma_mul_is_distributive_add_other_way(g as int, kb * q, kr);
        assert(a as int == g * (kb * q + kr));
        lemma_mod_of_multiple(kb * q + kr, g as int);
    }
}

/// A nonnegative multiple of `m >= 1` leaves remainder zero.
proof fn lemma_mod_of_multiple(k: int, m: int)
    requires
        m >= 1,
        k >= 0,
    ensures
        (k * m) % m == 0,
{
    vstd::arithmetic::div_mod::lemma_mod_multiples_basic(k, m);
}

/// A positive divisor of a positive number is at most that number.
pub proof fn lemma_gcd_le(a: nat, b: nat)
    requires
        a >= 1,
    ensures
        1 <= spec_gcd(a, b) <= a,
{
    lemma_gcd_pos(a, b);
    lemma_gcd_divides(a, b);
    let g = spec_gcd(a, b);
    if g > a {
        lemma_small_mod(a, g);
    }
}

/// One is coprime to everything.
pub proof fn lemma_gcd_one_left(n: nat)
    ensures
        spec_gcd(1, n) == 1,
{
    if n == 0 {
    } else if n == 1 {
        assert(1nat % 1nat == 0);
        assert(spec_gcd(1, 1) == spec_gcd(1, 0));
        assert(spec_gcd(1, 0) == 1);
    } else {
        lemma_small_mod(1, n);
        assert(1nat % n == 1);
        assert(spec_gcd(1, n) == spec_gcd(n, 1));
        lemma_mod_of_multiple(n as int, 1);
        assert(n as int * 1 == n as int);
        assert(n % 1 == 0);
        assert(spec_gcd(n, 1) == spec_gcd(1, 0));
        assert(spec_gcd(1, 0) == 1);
    }
}

/// How many of `1..=k_max` are coprime to `n`.
pub open spec fn coprime_count(n: nat, k_max: nat) -> nat
    decreases k_max,
{
    if k_max == 0 {
        0
    } else {
        coprime_count(n, (k_max - 1) as nat) + if spec_gcd(k_max, n) == 1 {
            1nat
        } else {
            0nat
        }
    }
}

/// Euler's totient: the number of integers in `1..=n` coprime to `n`.
pub open spec fn spec_totient(n: nat) -> nat {
    coprime_count(n, n)
}

pub proof fn lemma_coprime_count_le(n: nat, k_max: nat)
    ensures
        coprime_count(n, k_max) <= k_max,
    decreases k_max,
{
    if k_max != 0 {
        lemma_coprime_count_le(n, (k_max - 1) as nat);
    }
}

pub proof fn lemma_coprime_count_mono(n: nat, k1: nat, k2: nat)
    requires
        k1 <= k2,
    ensures
        coprime_count(n, k1) <= coprime_count(n, k2),
    decreases k2,
{
    if k1 < k2 {
        lemma_coprime_count_mono(n, k1, (k2 - 1) as nat);
    }
}

/// The totient of a positive number is between one and the number.
pub proof fn lemma_totient_bounds(n: nat)
    requires
        n >= 1,
    ensures
        1 <= spec_totient(n) <= n,
{
    lemma_coprime_count_le(n, n);
    lemma_gcd_one_left(n);
    assert(coprime_count(n, 0) == 0);
    assert(coprime_count(n, 1) == 1);
    lemma_coprime_count_mono(n, 1, n);
}

/// Euclid's algorithm.
pub fn gcd(a: u64, b: u64) -> (r: u64)
    ensures
        r == spec_gcd(a as nat, b as nat),
{
    let mut x = a;
    let mut y = b;
    while y != 0
        invariant
            spec_gcd(x as nat, y as nat) == spec_gcd(a as nat, b as nat),
        decreases y,
    {
        let t = x % y;
        x = y;
        y = t;
    }
    x
}

/// The Moebius function of the quotient handed to [`mobius`]. Its exact value
/// rests on prime factorization, which this crate does not model; the trusted
/// wrapper below is its sole source.
pub uninterp spec fn mobius_of(q: nat) -> int;

/// Relies on `red_primality::euler_totient`, documented as Euler's totient
/// function; it factors its argument and panics on zero, so zero is kept out.
#[verifier::external_body]
pub(crate) fn totient(n: u64) -> (r: u64)
    requires
        n >= 1,
    ensures
        r == spec_totient(n as nat),
{
    red_primality::euler_totient(n)
}

/// Relies on `red_primality::mobius(x, y)`, documented as the Moebius function
/// of `x / y`: it returns zero when `y` does not divide `x`, panics only when
/// `y` is zero, and its result is built from factors `-1`, `0` and `1`.
#[verifier::external_body]
pub(crate) fn mobius(x: u64, y: u64) -> (r: i64)
    requires
        x >= 1,
        y >= 1,
    ensures
        -1 <= r <= 1,
        x % y == 0 ==> r == mobius_of((x / y) as nat),
        x % y != 0 ==> r == 0,
{
    red_primality::mobius(x, y)
}

} // verus!
