use cyclovander::cond_parts;
use cyclovander::parse_line;
use cyclovander::table_header;
use cyclovander::tr_h;
use cyclovander::Error;
use cyclovander::Mode;

#[test]
fn cond_is_nonnegative_and_finite() {
    // The library returns the exact integer inputs of the condition-number
    // formula; the floating-point tail is evaluated here as a caller would.
    for n in [1u64, 2, 5, 11, 12, 101] {
        let (phi, tr) = cond_parts(n).unwrap();
        let c = (phi as f64) * ((tr as f64) / (n as f64)).sqrt();
        assert!(c >= 0.0, "cond({}) = {} is negative", n, c);
        assert!(c.is_finite(), "cond({}) = {} is not finite", n, c);
    }
}

#[test]
fn cond_parts_known_value() {
    // For n = 11 the parts are totient(11) = 10 and tr_h(11) = 20, so
    // cond(11) = 10 * sqrt(20 / 11).
    let (phi, tr) = cond_parts(11).unwrap();
    assert_eq!((phi, tr), (10, 20));
    let c = (phi as f64) * ((tr as f64) / 11.0).sqrt();
    assert!((c - 13.483997249264842).abs() < 1e-9);
}

#[test]
fn cond_parts_zero_is_invalid_input() {
    assert_eq!(cond_parts(0), Err(Error::InvalidInput));
}

#[test]
fn table_headers() {
    assert_eq!(table_header(Mode::Trace), "n\tTr(H_n)");
    assert_eq!(table_header(Mode::Cond), "n\tCond(V_n)");
}

#[test]
fn error_descriptions() {
    assert_eq!(Error::InvalidInput.describe(), "invalid input");
    assert_eq!(Error::Inversion.describe(), "matrix inversion failed");
    assert_eq!(Error::Arithmetic.describe(), "coefficient arithmetic failed");
}

#[test]
fn batch_mixed_lines_one_output_per_valid_integer() {
    // A batch keeps exactly the well-formed unsigned integers and emits one
    // record for each; garbage lines produce nothing and abort nothing.
    let lines = ["11", "banana", "", "101", "+5", "12.5", "0x10"];
    let mut out: Vec<(u64, u64)> = Vec::new();
    for line in lines {
        if let Some(n) = parse_line(line) {
            if let Ok(t) = tr_h(n) {
                out.push((n, t));
            }
        }
    }
    out.sort();
    assert_eq!(out, vec![(5, 8), (11, 20), (101, 200)]);
}
