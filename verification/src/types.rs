use vstd::prelude::*;
use vstd::string::StringExecFns;

use crate::rational::NumericValue;
use crate::rational::Rat;
use crate::rational::rat_str;
use crate::rational::rat_wf;

verus! {

/// The mathematical model of an expression tree: the same shape as `Expr`,
/// with each leaf holding the model of its numeric value.
pub enum ExprV {
    Num(Rat),
    Add(Box<ExprV>, Box<ExprV>),
    Sub(Box<ExprV>, Box<ExprV>),
    Mul(Box<ExprV>, Box<ExprV>),
    Div(Box<ExprV>, Box<ExprV>),
    Paren(Box<ExprV>),
}

/// An arithmetic expression: a strict tree, each node owning its children.
/// `Paren` preserves source grouping for rendering and is a no-op in
/// evaluation.
#[derive(Debug)]
pub enum Expr {
    Num(NumericValue),
    Add(Box<Expr>, Box<Expr>),
    Sub(Box<Expr>, Box<Expr>),
    Mul(Box<Expr>, Box<Expr>),
    Div(Box<Expr>, Box<Expr>),
    Paren(Box<Expr>),
}

pub open spec fn expr_model(e: Expr) -> ExprV
    decreases e,
{
    match e {
        Expr::Num(v) => ExprV::Num(v@),
        Expr::Add(l, r) => ExprV::Add(Box::new(expr_model(*l)), Box::new(expr_model(*r))),
        Expr::Sub(l, r) => ExprV::Sub(Box::new(expr_model(*l)), Box::new(expr_model(*r))),
        Expr::Mul(l, r) => ExprV::Mul(Box::new(expr_model(*l)), Box::new(expr_model(*r))),
        Expr::Div(l, r) => ExprV::Div(Box::new(expr_model(*l)), Box::new(expr_model(*r))),
        Expr::Paren(e) => ExprV::Paren(Box::new(expr_model(*e))),
    }
}

impl View for Expr {
    type V = ExprV;

    open spec fn view(&self) -> ExprV {
        expr_model(*self)
    }
}

/// Every numeric leaf of the tree is in reduced form.
pub open spec fn expr_wf(v: ExprV) -> bool
    decreases v,
{
    match v {
        ExprV::Num(r) => rat_wf(r),
        ExprV::Add(l, r) => expr_wf(*l) && expr_wf(*r),
        ExprV::Sub(l, r) => expr_wf(*l) && expr_wf(*r),
        ExprV::Mul(l, r) => expr_wf(*l) && expr_wf(*r),
        ExprV::Div(l, r) => expr_wf(*l) && expr_wf(*r),
        ExprV::Paren(e) => expr_wf(*e),
    }
}

/// The parenthesis-faithful textual form: leaves render canonically, binary
/// nodes as `left op right` with one space around the operator, `Paren` as
/// `(inner)`.
pub open spec fn render_spec(v: ExprV) -> Seq<char>
    decreases v,
{
    match v {
        ExprV::Num(r) => rat_str(r),
        ExprV::Add(l, r) => render_spec(*l) + seq![' ', '+', ' '] + render_spec(*r),
        ExprV::Sub(l, r) => render_spec(*l) + seq![' ', '-', ' '] + render_spec(*r),
        ExprV::Mul(l, r) => render_spec(*l) + seq![' ', '*', ' '] + render_spec(*r),
        ExprV::Div(l, r) => render_spec(*l) + seq![' ', '/', ' '] + render_spec(*r),
        ExprV::Paren(e) => seq!['('] + render_spec(*e) + seq![')'],
    }
}

/// Renders the tree back to text, reproducing operator structure and explicit
/// grouping (not the original whitespace or redundant signs).
pub fn render(e: &Expr) -> (r: String)
    requires
        expr_wf(e@),
    ensures
        r@ == render_spec(e@),
    decreases *e,
{
    proof {
        reveal_strlit(" + ");
        reveal_strlit(" - ");
        reveal_strlit(" * ");
        reveal_strlit(" / ");
        reveal_strlit("(");
        reveal_strlit(")");
    }
    match e {
        Expr::Num(v) => {
            let out = v.to_text();
            proof {
                assert(out@ =~= render_spec(e@));
            }
            out
        },
        Expr::Add(l, r) => {
            let mut out = render(&**l);
            out.append(" + ");
            let rs = render(&**r);
            out.append(rs.as_str());
            proof {
                assert(out@ =~= render_spec(e@));
            }
            out
        },
        Expr::Sub(l, r) => {
            let mut out = render(&**l);
            out.append(" - ");
            let rs = render(&**r);
            out.append(rs.as_str());
            proof {
                assert(out@ =~= render_spec(e@));
            }
            out
        },
        Expr::Mul(l, r) => {
            let mut out = render(&**l);
            out.append(" * ");
            let rs = render(&**r);
            out.append(rs.as_str());
            proof {
                assert(out@ =~= render_spec(e@));
            }
            out
        },
        Expr::Div(l, r) => {
            let mut out = render(&**l);
            out.append(" / ");
            let rs = render(&**r);
            out.append(rs.as_str());
            proof {
                assert(out@ =~= render_spec(e@));
            }
            out
        },
        Expr::Paren(inner) => {
            let mut out = String::new();
            out.append("(");
            let is = render(&**inner);
            out.append(is.as_str());
            out.append(")");
            proof {
                assert(out@ =~= render_spec(e@));
            }
            out
        },
    }
}

/// Structural equality of two trees: the same shape, with equal numeric
/// values at the leaves.
pub fn expr_eq(a: &Expr, b: &Expr) -> (r: bool)
    requires
        expr_wf(a@),
        expr_wf(b@),
    ensures
        r == (a@ == b@),
    decreases *a,
{
    match (a, b) {
        (Expr::Num(x), Expr::Num(y)) => x.eq_value(y),
        (Expr::Add(l1, r1), Expr::Add(l2, r2)) => expr_eq(&**l1, &**l2) && expr_eq(&**r1, &**r2),
        (Expr::Sub(l1, r1), Expr::Sub(l2, r2)) => expr_eq(&**l1, &**l2) && expr_eq(&**r1, &**r2),
        (Expr::Mul(l1, r1), Expr::Mul(l2, r2)) => expr_eq(&**l1, &**l2) && expr_eq(&**r1, &**r2),
        (Expr::Div(l1, r1), Expr::Div(l2, r2)) => expr_eq(&**l1, &**l2) && expr_eq(&**r1, &**r2),
        (Expr::Paren(i1), Expr::Paren(i2)) => expr_eq(&**i1, &**i2),
        _ => false,
    }
}

} // verus!
