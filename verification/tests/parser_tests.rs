use arithmetic_evaluator::Expected;
use arithmetic_evaluator::Expr;
use arithmetic_evaluator::NumericValue;
use arithmetic_evaluator::ParseError;
use arithmetic_evaluator::ParseErrorKind;
use arithmetic_evaluator::expr_eq;
use arithmetic_evaluator::parser;
use arithmetic_evaluator::to_r;

fn val(s: &str) -> NumericValue {
    to_r(s).unwrap()
}

fn num(s: &str) -> Expr {
    Expr::Num(val(s))
}

fn add_e(l: Expr, r: Expr) -> Expr {
    Expr::Add(Box::new(l), Box::new(r))
}

fn sub_e(l: Expr, r: Expr) -> Expr {
    Expr::Sub(Box::new(l), Box::new(r))
}

fn mul_e(l: Expr, r: Expr) -> Expr {
    Expr::Mul(Box::new(l), Box::new(r))
}

fn div_e(l: Expr, r: Expr) -> Expr {
    Expr::Div(Box::new(l), Box::new(r))
}

fn paren(e: Expr) -> Expr {
    Expr::Paren(Box::new(e))
}

#[test]
fn lex_test() {
    // Whitespace after a token is consumed along with it.
    let (e, consumed) = parser("4   ").unwrap();
    assert!(expr_eq(&e, &num("4")));
    assert_eq!(consumed, 4);
}

#[test]
fn parens_test() {
    let (e, rest) = parser("(3)").unwrap();
    assert!(expr_eq(&e, &paren(num("3"))));
    assert_eq!(rest, 3);
    let (e, rest) = parser("( +234/5  )").unwrap();
    assert!(expr_eq(&e, &paren(num("234/5"))));
    assert_eq!(rest, 11);
}

#[test]
fn number_test() {
    let (e, _) = parser("234").unwrap();
    assert!(expr_eq(&e, &num("234")));
    let (e, _) = parser("-234/567").unwrap();
    assert!(expr_eq(&e, &num("-234/567")));
    let (e, _) = parser("1/567").unwrap();
    assert!(expr_eq(&e, &num("1/567")));
    let (e, _) = parser("-234").unwrap();
    assert!(expr_eq(&e, &num("-234")));
}

#[test]
fn number_error_test() {
    assert_eq!(
        parser("").unwrap_err(),
        ParseError { kind: ParseErrorKind::UnexpectedToken, pos: 1, expected: Expected::DigitOrOpenParen },
    );
}

#[test]
fn term_test() {
    let (e, _) = parser("5*3").unwrap();
    assert!(expr_eq(&e, &mul_e(num("5"), num("3"))));
    let (e, _) = parser("6 / 3").unwrap();
    assert!(expr_eq(&e, &div_e(num("6"), num("3"))));
    let (e, _) = parser("6  *3 /  2").unwrap();
    assert!(expr_eq(&e, &div_e(mul_e(num("6"), num("3")), num("2"))));
    let (e, _) = parser("9").unwrap();
    assert!(expr_eq(&e, &num("9")));
}

#[test]
#[should_panic]
fn term_error_test() {
    // Once `3/` is consumed the parse is committed: the literal must finish
    // with digits, so this input is an error, not `3 / 2`.
    assert!(parser("3/ 2").is_ok());
}

#[test]
fn expr_test() {
    let (e, _) = parser("5+3").unwrap();
    assert!(expr_eq(&e, &add_e(num("5"), num("3"))));
    let (e, _) = parser("5 - 3 - 2").unwrap();
    assert!(expr_eq(&e, &sub_e(sub_e(num("5"), num("3")), num("2"))));
    let (e, _) = parser("5").unwrap();
    assert!(expr_eq(&e, &num("5")));
}

#[test]
fn expr_complex_test() {
    let (e, _) = parser("5+3 * 2").unwrap();
    assert!(expr_eq(&e, &add_e(num("5"), mul_e(num("3"), num("2")))));
    let (e, _) = parser("(5+3) * 2").unwrap();
    assert!(expr_eq(&e, &mul_e(paren(add_e(num("5"), num("3"))), num("2"))));
    let (e, _) = parser("+5 * (-33 - 7) + 3").unwrap();
    assert!(expr_eq(
        &e,
        &add_e(mul_e(num("5"), paren(sub_e(num("-33"), num("7")))), num("3")),
    ));
    let (e, _) = parser("((234/5 + 2) * -2/3)").unwrap();
    assert!(expr_eq(
        &e,
        &paren(mul_e(paren(add_e(num("234/5"), num("2"))), num("-2/3"))),
    ));
}

#[test]
fn leading_whitespace_test() {
    let (e, consumed) = parser("   \t\n 7/2").unwrap();
    assert!(expr_eq(&e, &num("7/2")));
    assert_eq!(consumed, 9);
}

#[test]
fn trailing_input_test() {
    // The parser reads the longest valid prefix; what follows is the
    // caller's concern.
    let (e, consumed) = parser("5 3").unwrap();
    assert!(expr_eq(&e, &num("5")));
    assert_eq!(consumed, 2);
}

#[test]
fn missing_close_paren_test() {
    assert_eq!(
        parser("(3").unwrap_err(),
        ParseError { kind: ParseErrorKind::UnexpectedToken, pos: 3, expected: Expected::CloseParen },
    );
}

#[test]
fn malformed_literal_test() {
    assert_eq!(
        parser("3/ 2").unwrap_err(),
        ParseError { kind: ParseErrorKind::MalformedLiteral, pos: 3, expected: Expected::Digit },
    );
    assert_eq!(
        parser("5 + ").unwrap_err(),
        ParseError { kind: ParseErrorKind::UnexpectedToken, pos: 5, expected: Expected::DigitOrOpenParen },
    );
}

#[test]
fn zero_denominator_literal_test() {
    // `5/0` is one (malformed) literal, unlike `5 / 0`, which parses.
    assert_eq!(
        parser("5/0").unwrap_err(),
        ParseError { kind: ParseErrorKind::MalformedLiteral, pos: 3, expected: Expected::NonzeroDenominator },
    );
    assert!(parser("5 / 0").is_ok());
}
