use collada::number::integer_string;
use collada::number::Real;

const LITERALS: [&str; 30] = [
    "0", "1", "-1", "+1", "1.", ".1", "-.5", "+5.", "3.14", "-3.14", "2.5E10", "2.5e-10", "1e5",
    "1E+5", "0e0", "007", "inf", "-inf", "+infinity", "INFINITY", "iNf", "NaN", "nan", "-nan",
    "+NAN", "1e999999999999999999999999999999", "1e-999999999999999999999999999999",
    "123456789012345678901234567890", "0.000000000000000000000000000001", "00.00e00",
];

const OTHERS: [&str; 28] = [
    "", " ", "+", "-", ".", "+.", "e", "e5", "1e", "1e+", "1e-", ".e1", "1..2", "1.2.3", "--1",
    "+-1", " 1", "1 ", "1,5", "0x10", "1_000", "infinit", "infinity1", "in", "na", "nanx",
    "1e5.0", "\u{661}",
];

#[test]
fn literals_are_accepted_as_the_floating_point_parser_accepts_them() {
    for s in LITERALS {
        assert!(s.parse::<f32>().is_ok(), "{}", s);
        let r = Real::parse(s);
        assert!(r.is_some(), "{}", s);
        assert_eq!(r.unwrap().literal(), s);
    }
}

#[test]
fn other_texts_are_refused_as_the_floating_point_parser_refuses_them() {
    for s in OTHERS {
        assert!(s.parse::<f32>().is_err(), "{}", s);
        assert!(Real::parse(s).is_none(), "{}", s);
    }
}

fn truncated(s: &str) -> i32 {
    Real::parse(s).unwrap().truncate()
}

#[test]
fn truncation_drops_the_fraction() {
    assert_eq!(truncated("50.0"), 50);
    assert_eq!(truncated("50.999"), 50);
    assert_eq!(truncated("-50.999"), -50);
    assert_eq!(truncated("0.5"), 0);
    assert_eq!(truncated("-0.5"), 0);
    assert_eq!(truncated(".5"), 0);
    assert_eq!(truncated("5."), 5);
    assert_eq!(truncated("+7"), 7);
    assert_eq!(truncated("007.9"), 7);
    assert_eq!(truncated("-0"), 0);
}

#[test]
fn truncation_applies_the_exponent() {
    assert_eq!(truncated("1e3"), 1000);
    assert_eq!(truncated("1.5e3"), 1500);
    assert_eq!(truncated("1.2345e2"), 123);
    assert_eq!(truncated("-1.2345E+2"), -123);
    assert_eq!(truncated("123456789e-5"), 1234);
    assert_eq!(truncated("15e-1"), 1);
    assert_eq!(truncated("15e-2"), 0);
    assert_eq!(truncated("15e-3"), 0);
    assert_eq!(truncated("0.00012e5"), 12);
    assert_eq!(truncated("0e999999999999999999999999999999"), 0);
    assert_eq!(truncated("0.0e999999999999999999999999999999"), 0);
    assert_eq!(truncated("1e-999999999999999999999999999999"), 0);
    assert_eq!(truncated("2e9"), 2000000000);
}

#[test]
fn truncation_stops_at_the_bounds() {
    assert_eq!(truncated("2147483647"), 2147483647);
    assert_eq!(truncated("2147483647.9"), 2147483647);
    assert_eq!(truncated("2147483648"), 2147483647);
    assert_eq!(truncated("-2147483647"), -2147483647);
    assert_eq!(truncated("-2147483648"), -2147483648);
    assert_eq!(truncated("-2147483649"), -2147483648);
    assert_eq!(truncated("3e9"), 2147483647);
    assert_eq!(truncated("1e10"), 2147483647);
    assert_eq!(truncated("1e40"), 2147483647);
    assert_eq!(truncated("-1e40"), -2147483648);
    assert_eq!(truncated("1e999999999999999999999999999999"), 2147483647);
    assert_eq!(truncated("123456789012345678901234567890"), 2147483647);
    assert_eq!(truncated("inf"), 2147483647);
    assert_eq!(truncated("+Infinity"), 2147483647);
    assert_eq!(truncated("-inf"), -2147483648);
    assert_eq!(truncated("nan"), 0);
    assert_eq!(truncated("-NaN"), 0);
}

#[test]
fn truncation_agrees_with_the_cast_of_a_float() {
    for s in [
        "0", "1", "-1", "50.0", "30", "-151.0", "123.0", "49.9", "-49.9", "1e3", "2.5e2",
        "1e10", "-1e10", "inf", "-inf", "nan", "0.25", "1234.5", "-8388607.5", "16777216",
    ] {
        let x = s.parse::<f32>().unwrap();
        assert_eq!(truncated(s), x as i32, "{}", s);
    }
}

#[test]
fn integers_are_written_in_decimal() {
    for v in [0, 1, -1, 9, 10, 11, 99, 100, -100, 1234567890, i32::MAX, i32::MIN, -2147483647] {
        assert_eq!(integer_string(v), v.to_string());
    }
}

#[test]
fn an_integer_is_a_real() {
    for v in [0, 1, -1, 42, i32::MAX, i32::MIN] {
        let r = Real::from_integer(v);
        assert_eq!(r.literal(), v.to_string());
        assert_eq!(r.truncate(), v);
        assert!(Real::parse(r.literal()).is_some());
    }
}

fn texts_over(alphabet: &[char], longest: usize) -> Vec<String> {
    let mut all = vec![String::new()];
    let mut last = vec![String::new()];
    for _ in 0..longest {
        let mut next = Vec::new();
        for t in &last {
            for c in alphabet {
                let mut longer = t.clone();
                longer.push(*c);
                next.push(longer);
            }
        }
        all.extend(next.iter().cloned());
        last = next;
    }
    all
}

#[test]
fn every_short_text_is_judged_as_the_floating_point_parser_judges_it() {
    let alphabet = ['0', '9', '.', 'e', 'E', '+', '-', 'i', 'n', 'f', 'a', 'N', ' '];
    let mut literals = 0;
    for t in texts_over(&alphabet, 5) {
        let accepted = Real::parse(&t).is_some();
        assert_eq!(accepted, t.parse::<f32>().is_ok(), "{:?}", t);
        if accepted {
            literals += 1;
        }
    }
    assert!(literals > 100);
}

#[test]
fn every_short_literal_is_truncated_as_a_float_is_cast() {
    let alphabet = ['0', '1', '9', '.', 'e', '+', '-'];
    let mut literals = 0;
    for t in texts_over(&alphabet, 5) {
        if let Some(r) = Real::parse(&t) {
            let x = t.parse::<f32>().unwrap();
            assert_eq!(r.truncate(), x as i32, "{:?}", t);
            literals += 1;
        }
    }
    assert!(literals > 1000);
}
