use funnel_web::nudge::{check_numeral, fix_decimal_rounding};

/// Prints the magnitude, rounds what is printed, and reads the result back with the sign.
fn nudge(input: f32) -> f32 {
    if !input.is_finite() {
        return input;
    }
    let printed = format!("{}", input.abs());
    match fix_decimal_rounding(printed.as_bytes()) {
        None => input,
        Some(rounded) => {
            let text = String::from_utf8(rounded).unwrap();
            let value: f64 = text.parse().unwrap();
            (value as f32) * input.signum()
        }
    }
}

fn rounded(digits: &str) -> Option<String> {
    fix_decimal_rounding(digits.as_bytes()).map(|bytes| String::from_utf8(bytes).unwrap())
}

fn test_nudge(expected: f32, value_to_nudge: f32) {
    assert_ne!(expected, value_to_nudge, "values already equal (FP precision weirdness?)");
    assert_eq!(expected, nudge(value_to_nudge), "nudging failed");
}

fn test_no_nudge(value_to_nudge: f32) {
    assert_eq!(value_to_nudge, nudge(value_to_nudge), "nudged when it shouldn't");
}

#[test]
fn test_nudgification() {
    test_nudge(1.75, 1.75000035762786865234375);
    test_nudge(1.75, 1.74999964237213134765625);
    test_nudge(1000.0, 999.99994);

    test_nudge(0.0005, 0.000500000081956386566162109375);
    test_nudge(0.0005, 0.00049999985);
    test_nudge(0.001, 0.0009999999);
    test_nudge(0.0100098, 0.010009766);
    test_nudge(-0.0100098, -0.010009766);

    test_nudge(1.0, 0.9999995);
    test_nudge(1.0, 1.0000003);

    test_no_nudge(33.3333);
    test_no_nudge(1.0);
    test_no_nudge(1.75);
    test_no_nudge(0.0100098);
    test_no_nudge(0.0100098);
    test_nudge(33.3333, 33.333332061767578125);
    test_nudge(-33.3333, -33.333332061767578125);
}

#[test]
fn short_numerals_are_left_alone() {
    assert_eq!(rounded(""), None);
    assert_eq!(rounded("1"), None);
    assert_eq!(rounded("1.75"), None);
    assert_eq!(rounded("12345"), None);
    assert_eq!(rounded("9.999"), None);
    assert_eq!(rounded("123456"), Some("0123456".to_string()));
}

#[test]
fn six_figures_or_fewer_are_kept() {
    assert_eq!(rounded("33.3333"), Some("033.3333".to_string()));
    assert_eq!(rounded("0.0100098"), Some("00.0100098".to_string()));
    assert_eq!(rounded("0.000001"), Some("00.000001".to_string()));
    assert_eq!(rounded("000000"), Some("0000000".to_string()));
    assert_eq!(rounded("100000"), Some("0100000".to_string()));
}

#[test]
fn figures_after_the_sixth_are_cleared() {
    assert_eq!(rounded("1.7500004"), Some("01.7500000".to_string()));
    assert_eq!(rounded("1234564"), Some("01234560".to_string()));
    assert_eq!(rounded("1234564.99"), Some("01234560.00".to_string()));
    assert_eq!(rounded("0.00012345649"), Some("00.00012345600".to_string()));
    assert_eq!(rounded("33.333332"), Some("033.333300".to_string()));
}

#[test]
fn a_seventh_figure_of_five_or_more_rounds_up() {
    assert_eq!(rounded("1234565"), Some("01234570".to_string()));
    assert_eq!(rounded("1.7499996"), Some("01.7500000".to_string()));
    assert_eq!(rounded("0.010009766"), Some("00.010009800".to_string()));
    assert_eq!(rounded("1234569.5"), Some("01234570.0".to_string()));
}

#[test]
fn rounding_up_carries_over_nines_and_the_point() {
    assert_eq!(rounded("999.99904"), Some("0999.99900".to_string()));
    assert_eq!(rounded("999.99994"), Some("1000.00000".to_string()));
    assert_eq!(rounded("999.99995"), Some("1000.00000".to_string()));
    assert_eq!(rounded("9999995"), Some("10000000".to_string()));
    assert_eq!(rounded("0.9999995"), Some("01.0000000".to_string()));
    assert_eq!(rounded("0.00049999985"), Some("00.00050000000".to_string()));
    assert_eq!(rounded("1299.9996"), Some("01300.0000".to_string()));
}

#[test]
fn rounding_up_adds_to_the_last_figure_that_is_not_zero() {
    assert_eq!(rounded("1.2345096"), Some("01.2346000".to_string()));
    assert_eq!(rounded("1200005"), Some("01300000".to_string()));
    assert_eq!(rounded("1000007"), Some("02000000".to_string()));
    assert_eq!(rounded("0.10000051"), Some("00.20000000".to_string()));
}

#[test]
fn a_second_point_is_passed_over() {
    assert_eq!(rounded("1.2.34567"), Some("01.2.34570".to_string()));
}

#[test]
fn numerals_are_told_from_other_text() {
    assert!(check_numeral(b""));
    assert!(check_numeral(b"0123456789."));
    assert!(check_numeral(b"1.2.3"));
    assert!(!check_numeral(b"1e5"));
    assert!(!check_numeral(b"-1"));
    assert!(!check_numeral(b"inf"));
    assert!(!check_numeral(b"12/"));
    assert!(!check_numeral(b"12:"));
}
