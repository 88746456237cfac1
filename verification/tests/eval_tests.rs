use arithmetic_evaluator::EvalError;
use arithmetic_evaluator::Expr;
use arithmetic_evaluator::NumericValue;
use arithmetic_evaluator::eval;
use arithmetic_evaluator::parser;
use arithmetic_evaluator::to_r;

fn val(s: &str) -> NumericValue {
    to_r(s).unwrap()
}

fn num(s: &str) -> Expr {
    Expr::Num(val(s))
}

fn add_e(l: Expr, r: Expr) -> Expr {
    Expr::Add(Box::new(l), Box::new(r))
}

fn sub_e(l: Expr, r: Expr) -> Expr {
    Expr::Sub(Box::new(l), Box::new(r))
}

fn mul_e(l: Expr, r: Expr) -> Expr {
    Expr::Mul(Box::new(l), Box::new(r))
}

fn div_e(l: Expr, r: Expr) -> Expr {
    Expr::Div(Box::new(l), Box::new(r))
}

fn paren(e: Expr) -> Expr {
    Expr::Paren(Box::new(e))
}

fn eval_text(s: &str) -> NumericValue {
    let (e, _) = parser(s).unwrap();
    eval(e).unwrap()
}

#[test]
fn eval_basic_test() {
    assert!(eval(num("3")).unwrap().eq_value(&val("3")));
    assert!(eval(add_e(num("5"), num("3"))).unwrap().eq_value(&val("8")));
    assert!(eval(sub_e(num("5"), num("3"))).unwrap().eq_value(&val("2")));
    assert!(eval(mul_e(num("5"), num("3"))).unwrap().eq_value(&val("15")));
    assert!(eval(div_e(num("6"), num("3"))).unwrap().eq_value(&val("2")));
}

#[test]
fn eval_complex_test() {
    assert!(
        eval(add_e(sub_e(add_e(num("-12"), num("6")), num("-4")), num("3")))
            .unwrap()
            .eq_value(&val("1"))
    );
    assert!(
        eval(mul_e(add_e(num("1"), mul_e(num("2/5"), num("3"))), num("4")))
            .unwrap()
            .eq_value(&val("44/5"))
    );
    assert!(
        eval(mul_e(num("-2/3"), paren(add_e(num("3"), num("4")))))
            .unwrap()
            .eq_value(&val("-14/3"))
    );
    assert!(
        eval(add_e(
            div_e(
                mul_e(num("2"), num("-2")),
                paren(sub_e(num("-5"), num("1"))),
            ),
            num("3"),
        ))
        .unwrap()
        .eq_value(&val("11/3"))
    );
}

#[test]
fn left_associativity_test() {
    assert!(eval_text("5-3-2").eq_value(&val("0")));
    assert!(eval_text("6-3-2").eq_value(&val("1")));
    assert!(!eval_text("6-3-2").eq_value(&val("5")));
}

#[test]
fn precedence_test() {
    assert!(eval_text("5+3*2").eq_value(&val("11")));
    assert!(eval_text("(5+3)*2").eq_value(&val("16")));
}

#[test]
fn unary_sign_grouping_test() {
    assert!(eval_text("+5 * (-33 - 7) + 3").eq_value(&val("-197")));
}

#[test]
fn rational_exactness_test() {
    assert!(eval_text("1 + 2/5 * 3").eq_value(&val("11/5")));
    assert!(eval_text("(1 + 2/5 * 3) * 4").eq_value(&val("44/5")));
    assert!(!eval_text("(1 + 2/5 * 3) * 4").eq_value(&val("9")));
}

#[test]
fn division_by_zero_test() {
    // The text parses into a valid tree; only evaluation fails.
    let (e, _) = parser("5 / 0").unwrap();
    assert_eq!(eval(e).unwrap_err(), EvalError::DivisionByZero);
    let (e, _) = parser("1 + 6/2 / (4 - 2 - 2)").unwrap();
    assert_eq!(eval(e).unwrap_err(), EvalError::DivisionByZero);
}

#[test]
fn paren_is_transparent_test() {
    assert!(eval(paren(num("3"))).unwrap().eq_value(&val("3")));
    assert!(eval_text("((( 42 )))").eq_value(&val("42")));
}

#[test]
fn literal_round_trip_test() {
    // A stand-alone literal parses and evaluates to the directly
    // constructed value.
    for s in ["234", "-3/7", "+15/3", "0", "-0", "2/4"] {
        assert!(eval_text(s).eq_value(&val(s)));
    }
}
