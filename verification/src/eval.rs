use vstd::prelude::*;

use crate::errors::EvalError;
use crate::rational::NumericValue;
use crate::rational::Rat;
use crate::rational::rat_add_v;
use crate::rational::rat_div_v;
use crate::rational::rat_mul_v;
use crate::rational::rat_sub_v;
use crate::types::Expr;
use crate::types::ExprV;
use crate::types::expr_wf;

verus! {

/// The value of an expression tree: a pure post-order fold.  Children are
/// evaluated left to right; `Paren` passes its inner value through; the only
/// failure is a division whose right operand is the zero value.
pub open spec fn eval_spec(v: ExprV) -> Result<Rat, EvalError>
    decreases v,
{
    match v {
        ExprV::Num(r) => Ok(r),
        ExprV::Add(l, r) => match (eval_spec(*l), eval_spec(*r)) {
            (Ok(a), Ok(b)) => Ok(rat_add_v(a, b)),
            (Err(e), _) => Err(e),
            (_, Err(e)) => Err(e),
        },
        ExprV::Sub(l, r) => match (eval_spec(*l), eval_spec(*r)) {
            (Ok(a), Ok(b)) => Ok(rat_sub_v(a, b)),
            (Err(e), _) => Err(e),
            (_, Err(e)) => Err(e),
        },
        ExprV::Mul(l, r) => match (eval_spec(*l), eval_spec(*r)) {
            (Ok(a), Ok(b)) => Ok(rat_mul_v(a, b)),
            (Err(e), _) => Err(e),
            (_, Err(e)) => Err(e),
        },
        ExprV::Div(l, r) => match (eval_spec(*l), eval_spec(*r)) {
            (Ok(a), Ok(b)) => if b.n == 0 {
                Err(EvalError::DivisionByZero)
            } else {
                Ok(rat_div_v(a, b))
            },
            (Err(e), _) => Err(e),
            (_, Err(e)) => Err(e),
        },
        ExprV::Paren(inner) => eval_spec(*inner),
    }
}

/// Folds the tree into a single numeric value, or fails with
/// `DivisionByZero` exactly when the model evaluation does.
pub fn eval(e: Expr) -> (r: Result<NumericValue, EvalError>)
    requires
        expr_wf(e@),
    ensures
        r is Ok ==> eval_spec(e@) == Ok::<Rat, EvalError>((r->Ok_0)@) && (r->Ok_0).wf(),
        r is Err ==> eval_spec(e@) == Err::<Rat, EvalError>(r->Err_0),
    decreases e,
{
    match e {
        Expr::Num(v) => Ok(v),
        Expr::Add(l, r) => {
            let a = match eval(*l) {
                Ok(a) => a,
                Err(er) => { return Err(er) },
            };
            let b = match eval(*r) {
                Ok(b) => b,
                Err(er) => { return Err(er) },
            };
            Ok(a.add(&b))
        },
        Expr::Sub(l, r) => {
            let a = match eval(*l) {
                Ok(a) => a,
                Err(er) => { return Err(er) },
            };
            let b = match eval(*r) {
                Ok(b) => b,
                Err(er) => { return Err(er) },
            };
            Ok(a.sub(&b))
        },
        Expr::Mul(l, r) => {
            let a = match eval(*l) {
                Ok(a) => a,
                Err(er) => { return Err(er) },
            };
            let b = match eval(*r) {
                Ok(b) => b,
                Err(er) => { return Err(er) },
            };
            Ok(a.mul(&b))
        },
        Expr::Div(l, r) => {
            let a = match eval(*l) {
                Ok(a) => a,
                Err(er) => { return Err(er) },
            };
            let b = match eval(*r) {
                Ok(b) => b,
                Err(er) => { return Err(er) },
            };
            a.div(&b)
        },
        Expr::Paren(inner) => eval(*inner),
    }
}

} // verus!
