use arithmetic_evaluator::Expected;
use arithmetic_evaluator::NumericValue;
use arithmetic_evaluator::ParseError;
use arithmetic_evaluator::ParseErrorKind;
use arithmetic_evaluator::parser;
use arithmetic_evaluator::render;
use arithmetic_evaluator::to_r;

fn val(s: &str) -> NumericValue {
    to_r(s).unwrap()
}

#[test]
fn reduction_test() {
    // Equality is on the reduced form, however the value was written.
    assert!(val("2/4").eq_value(&val("1/2")));
    assert!(val("8/4").eq_value(&val("2")));
    assert!(val("-6/8").eq_value(&val("-3/4")));
    assert!(val("-0").eq_value(&val("0")));
    assert!(!val("1/2").eq_value(&val("1/3")));
}

#[test]
fn arithmetic_test() {
    assert!(val("1/2").add(&val("1/3")).eq_value(&val("5/6")));
    assert!(val("1/2").sub(&val("1/3")).eq_value(&val("1/6")));
    assert!(val("2/3").mul(&val("3/4")).eq_value(&val("1/2")));
    assert!(val("2/3").div(&val("4")).unwrap().eq_value(&val("1/6")));
    assert!(val("3").neg().eq_value(&val("-3")));
    assert!(val("-5/7").neg().eq_value(&val("5/7")));
}

#[test]
fn division_by_zero_value_test() {
    assert!(val("3").div(&val("0")).is_err());
    assert!(val("0").div(&val("3")).unwrap().eq_value(&val("0")));
}

#[test]
fn malformed_literal_construction_test() {
    assert_eq!(
        to_r("").unwrap_err(),
        ParseError { kind: ParseErrorKind::MalformedLiteral, pos: 1, expected: Expected::Digit },
    );
    assert_eq!(
        to_r("12x").unwrap_err(),
        ParseError { kind: ParseErrorKind::MalformedLiteral, pos: 3, expected: Expected::Digit },
    );
    assert_eq!(
        to_r("+").unwrap_err(),
        ParseError { kind: ParseErrorKind::MalformedLiteral, pos: 2, expected: Expected::Digit },
    );
    assert_eq!(
        to_r("3//2").unwrap_err(),
        ParseError { kind: ParseErrorKind::MalformedLiteral, pos: 3, expected: Expected::Digit },
    );
    assert_eq!(
        to_r("1/0").unwrap_err(),
        ParseError {
            kind: ParseErrorKind::MalformedLiteral,
            pos: 3,
            expected: Expected::NonzeroDenominator,
        },
    );
}

#[test]
fn value_text_test() {
    assert_eq!(val("-14/3").to_text(), "-14/3");
    assert_eq!(val("2/4").to_text(), "1/2");
    assert_eq!(val("8/4").to_text(), "2");
    assert_eq!(val("0").to_text(), "0");
    assert_eq!(val("+7").to_text(), "7");
}

#[test]
fn render_shape_test() {
    // Rendering reproduces operator structure and explicit grouping.
    let (e, _) = parser("(3)").unwrap();
    assert_eq!(render(&e), "(3)");
    let (e, _) = parser("5+3 * 2").unwrap();
    assert_eq!(render(&e), "5 + 3 * 2");
    let (e, _) = parser("( +234/5  )").unwrap();
    assert_eq!(render(&e), "(234/5)");
    let (e, _) = parser("+5 * (-33 - 7) + 3").unwrap();
    assert_eq!(render(&e), "5 * (-33 - 7) + 3");
}
