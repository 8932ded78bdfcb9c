use cyclovander::tr_h;
use cyclovander::Error;

#[test]
fn tr_prime() {
    let primes: [u64; 5] = [11, 101, 103, 137, 179];
    let traces = primes.map(|p| tr_h(p).unwrap());

    assert_eq!(traces, [20, 200, 204, 272, 356]);
}

#[test]
fn tr_prime_power() {
    let primes_power: [u64; 5] = [25, 27, 49, 121, 841];
    let traces = primes_power.map(|p| tr_h(p).unwrap());

    assert_eq!(traces, [40, 36, 84, 220, 1624]);
}

#[test]
fn tr_squarefree() {
    let squarefrees: [u64; 5] = [259, 534, 649, 785, 901];
    let traces = squarefrees.map(|p| tr_h(p).unwrap());

    assert_eq!(traces, [1576, 1640, 5776, 3740, 11600]);
}

#[test]
fn tr_repeated_calls_agree() {
    let first = tr_h(101).unwrap();
    let second = tr_h(101).unwrap();
    assert_eq!(first, second);
    assert_eq!(first, 200);
}

#[test]
fn tr_zero_is_invalid_input() {
    assert_eq!(tr_h(0), Err(Error::InvalidInput));
}

#[test]
fn tr_one_is_accepted() {
    assert_eq!(tr_h(1).unwrap(), 1);
}
