//! Assembly of the Gram matrix from the coefficient sequence.
//!
//! The matrix is symmetric and Toeplitz-like: entry `(i, j)` is
//! `v[|i - j|]`, so the `m * m` cells carry at most `m` distinct values and
//! the sequence is computed once and indexed into.

use vstd::prelude::*;

verus! {

/// The index-folding rule: the distance `|i - j|`.
pub open spec fn fold_dist(i: int, j: int) -> int {
    if j >= i {
        j - i
    } else {
        i - j
    }
}

/// Entry `(i, j)` of the Gram matrix over the coefficient sequence `v`.
pub open spec fn gram_entry(v: Seq<i64>, i: int, j: int) -> i64 {
    v[fold_dist(i, j)]
}

/// A flat row-major `m * m` buffer `g` holds the Gram matrix of `v`.
pub open spec fn is_gram_of(g: Seq<i64>, v: Seq<i64>) -> bool {
    &&& g.len() == v.len() * v.len()
    &&& forall|i: int, j: int|
        0 <= i < v.len() && 0 <= j < v.len() ==> g[i * v.len() + j] == gram_entry(v, i, j)
}

/// Computes `|i - j|` without overflow.
pub fn fold_index(i: usize, j: usize) -> (r: usize)
    ensures
        r == fold_dist(i as int, j as int),
{
    if j >= i {
        j - i
    } else {
        i - j
    }
}

/// The folded matrix is symmetric: `|i - j| == |j - i|`.
pub proof fn lemma_gram_symmetric(g: Seq<i64>, v: Seq<i64>, i: int, j: int)
    requires
        is_gram_of(g, v),
        0 <= i < v.len(),
        0 <= j < v.len(),
    ensures
        g[i * v.len() + j] == g[j * v.len() + i],
{
    assert(gram_entry(v, i, j) == gram_entry(v, j, i));
}

/// The Gram matrix is a function of its coefficient sequence alone: two flat
/// buffers that both hold the Gram matrix of `v` are equal.
pub proof fn lemma_gram_unique(v: Seq<i64>, g1: Seq<i64>, g2: Seq<i64>)
    requires
        is_gram_of(g1, v),
        is_gram_of(g2, v),
    ensures
        g1 == g2,
{
    let m = v.len() as int;
    assert forall|k: int| 0 <= k < g1.len() implies g1[k] == g2[k] by {
        let i = k / m;
        let j = k % m;
        assert(m * m == g1.len()) by (nonlinear_arith)
            requires
                g1.len() == v.len() * v.len(),
                m == v.len(),
        ;
        assert(m != 0) by {
            if m == 0 {
                assert(m * m == 0);
            }
        }
        vstd::arithmetic::div_mod::lemma_fundamental_div_mod(k, m);
        assert(m * (k / m) == (k / m) * m) by (nonlinear_arith);
        assert(k == i * m + j);
        vstd::arithmetic::div_mod::lemma_multiply_divide_lt(k, m, m);
        vstd::arithmetic::div_mod::lemma_div_pos_is_pos(k, m);
        assert(0 <= i < m);
        assert(0 <= j < m);
        assert(g1[i * m + j] == gram_entry(v, i, j));
        assert(g2[i * m + j] == gram_entry(v, i, j));
    }
    assert(g1 =~= g2);
}

/// Builds the flat row-major Gram matrix of the coefficient sequence `v`.
pub fn build_gram(v: &Vec<i64>) -> (g: Vec<i64>)
    requires
        v.len() >= 1,
        v.len() * v.len() <= usize::MAX,
    ensures
        is_gram_of(g@, v@),
{
    let m = v.len();
    let mut g: Vec<i64> = Vec::new();
    let mut i: usize = 0;
    while i < m
        invariant
            m == v.len(),
            m >= 1,
            m * m <= usize::MAX,
            i <= m,
            g.len() == i * m,
            forall|a: int, b: int|
                0 <= a < i && 0 <= b < m ==> g[a * m + b] == gram_entry(v@, a, b),
        decreases m - i,
    {
        let mut j: usize = 0;
        while j < m
            invariant
                m == v.len(),
                m >= 1,
                m * m <= usize::MAX,
                i < m,
                j <= m,
                g.len() == i * m + j,
                forall|a: int, b: int|
                    0 <= a < i && 0 <= b < m ==> g[a * m + b] == gram_entry(v@, a, b),
                forall|b: int| 0 <= b < j ==> g[i * m + b] == gram_entry(v@, i as int, b),
            decreases m - j,
        {
            proof {
                assert(i * m + j < m * m) by (nonlinear_arith)
                    requires
                        i < m,
                        j < m,
                ;
            }
            let idx = fold_index(i, j);
            let ghost prev = g@;
            g.push(v[idx]);
            proof {
                assert forall|a: int, b: int|
                    0 <= a < i && 0 <= b < m implies g@[a * m + b] == gram_entry(v@, a, b) by {
                    assert(0 <= a * m + b < i * m + j) by (nonlinear_arith)
                        requires
                            0 <= a < i,
                            0 <= b < m,
                            0 <= j,
                    ;
                    assert(g@[a * m + b] == prev[a * m + b]);
                }
                assert forall|b: int|
                    0 <= b < j + 1 implies g@[i * m + b] == gram_entry(v@, i as int, b) by {
                    if b < j {
                        assert(g@[i * m + b] == prev[i * m + b]);
                    } else {
                        assert(i * m + b == prev.len());
                        assert(g@[i * m + b] == v@[fold_dist(i as int, j as int)]);
                    }
                }
            }
            j += 1;
        }
        proof {
            assert(i * m + m == (i + 1) * m) by (nonlinear_arith);
            assert forall|a: int, b: int|
                0 <= a < i + 1 && 0 <= b < m implies g@[a * m + b] == gram_entry(v@, a, b) by {
                if a == i {
                    assert(g@[i * m + b] == gram_entry(v@, i as int, b));
                }
            }
        }
        i += 1;
    }
    g
}

} // verus!
