use cyclovander::coeff::coefficient;
use cyclovander::coeff::coefficients;
use cyclovander::gram::build_gram;
use cyclovander::gram::fold_index;

#[test]
fn coefficient_values_prime() {
    // For n = 11: t = 0 folds to gcd 11, so the coefficient is
    // mobius(1) * totient(11) / totient(1) = 10; any other t < 10 is coprime
    // to 11, giving mobius(11) * totient(11) / totient(11) = -1.
    assert_eq!(coefficient(0, 11), Ok(10));
    for t in 1..10 {
        assert_eq!(coefficient(t, 11), Ok(-1));
    }
}

#[test]
fn coefficient_values_composite() {
    // n = 12: totient(12) = 4.
    // t = 0: gcd 12, mobius(1) * 4 / totient(1) = 4.
    // t = 1: gcd 1, mobius(12) = 0.
    // t = 2: gcd 2, mobius(6) * 4 / totient(6) = 1 * 4 / 2 = 2.
    // t = 3: gcd 3, mobius(4) = 0.
    assert_eq!(coefficient(0, 12), Ok(4));
    assert_eq!(coefficient(1, 12), Ok(0));
    assert_eq!(coefficient(2, 12), Ok(2));
    assert_eq!(coefficient(3, 12), Ok(0));
}

#[test]
fn coefficient_trivial_input() {
    assert_eq!(coefficient(0, 1), Ok(1));
}

#[test]
fn coefficient_sequence_small() {
    // n = 5: totient(5) = 4; the sequence is [4, -1, -1, -1].
    let v = coefficients(5, 4).unwrap();
    assert_eq!(v, vec![4, -1, -1, -1]);
}

#[test]
fn gram_matrix_small() {
    let v = vec![2i64, -1, 0];
    let g = build_gram(&v);
    assert_eq!(g, vec![2, -1, 0, -1, 2, -1, 0, -1, 2]);
}

#[test]
fn gram_matrix_symmetric() {
    let v = coefficients(5, 4).unwrap();
    let g = build_gram(&v);
    let m = v.len();
    assert_eq!(g.len(), m * m);
    for i in 0..m {
        for j in 0..m {
            assert_eq!(g[i * m + j], g[j * m + i]);
        }
    }
}

#[test]
fn fold_index_is_distance() {
    assert_eq!(fold_index(0, 3), 3);
    assert_eq!(fold_index(3, 0), 3);
    assert_eq!(fold_index(4, 4), 0);
}
