use vstd::prelude::*;
use vstd::string::StrSliceExecFns;

use crate::errors::Expected;
use crate::errors::ParseError;
use crate::errors::ParseErrorKind;
use crate::errors::to_col;
use crate::errors::to_col_exec;
use crate::rational::NumericValue;
use crate::rational::Rat;
use crate::rational::is_digit_char;
use crate::rational::literal_of;
use crate::rational::spec_literal;
use crate::types::Expr;
use crate::types::ExprV;
use crate::types::expr_wf;

verus! {

/// The whitespace that may stand between tokens: spaces, tabs, newlines.
pub open spec fn is_space_char(c: char) -> bool {
    c == ' ' || c == '\t' || c == '\n' || c == '\r'
}

/// A character that can belong to the digit run of a number token.
pub open spec fn is_numchar(c: char) -> bool {
    is_digit_char(c) || c == '/'
}

/// The first position at or after `i` that does not hold whitespace.
pub open spec fn skip_spaces(s: Seq<char>, i: int) -> int
    decreases s.len() - i,
{
    if 0 <= i < s.len() && is_space_char(s[i]) {
        skip_spaces(s, i + 1)
    } else {
        i
    }
}

/// The first position at or after `i` that does not hold a digit or `/`.
pub open spec fn scan_numchars(s: Seq<char>, i: int) -> int
    decreases s.len() - i,
{
    if 0 <= i < s.len() && is_numchar(s[i]) {
        scan_numchars(s, i + 1)
    } else {
        i
    }
}

pub proof fn lemma_scan_numchars(s: Seq<char>, i: int)
    requires
        0 <= i <= s.len(),
    ensures
        i <= scan_numchars(s, i) <= s.len(),
        forall|j: int| i <= j < scan_numchars(s, i) ==> is_numchar(s[j]),
        scan_numchars(s, i) < s.len() ==> !is_numchar(s[scan_numchars(s, i)]),
    decreases s.len() - i,
{
    if i < s.len() && is_numchar(s[i]) {
        lemma_scan_numchars(s, i + 1);
    }
}

/// A sentinel for specification branches that a successful progress proof
/// rules out; it keeps the grammar functions well founded.  Its column 0 is
/// one no real error carries.
pub open spec fn dead_end() -> ParseError {
    ParseError { kind: ParseErrorKind::UnexpectedToken, pos: 0, expected: Expected::DigitOrOpenParen }
}

/// A number token: an optional sign, then the maximal run of digits and `/`,
/// read under the literal grammar, with trailing whitespace skipped.
pub open spec fn spec_number(s: Seq<char>, pos: int) -> Result<(Rat, int), ParseError>
    recommends
        0 <= pos < s.len(),
{
    let run_start: int = if s[pos] == '+' || s[pos] == '-' {
        pos + 1
    } else {
        pos
    };
    let run_end = scan_numchars(s, run_start);
    match spec_literal(s.subrange(pos, run_end)) {
        Ok(v) => Ok((v, skip_spaces(s, run_end))),
        Err(p) => Err(
            ParseError {
                kind: ParseErrorKind::MalformedLiteral,
                pos: to_col(pos + p.0),
                expected: p.1,
            },
        ),
    }
}

/// `factor := number | '(' expr ')'`.  A signed number is committed to as
/// soon as its first character fits one; otherwise an opening parenthesis is
/// required.
pub open spec fn spec_factor(s: Seq<char>, pos: int) -> Result<(ExprV, int), ParseError>
    decreases s.len() - pos, 1int,
{
    if !(0 <= pos < s.len()) {
        Err(
            ParseError {
                kind: ParseErrorKind::UnexpectedToken,
                pos: to_col(pos),
                expected: Expected::DigitOrOpenParen,
            },
        )
    } else if is_numchar(s[pos]) || s[pos] == '+' || s[pos] == '-' {
        match spec_number(s, pos) {
            Ok((v, p)) => Ok((ExprV::Num(v), p)),
            Err(e) => Err(e),
        }
    } else if s[pos] == '(' {
        let p1 = skip_spaces(s, pos + 1);
        if pos < p1 <= s.len() {
            match spec_expr(s, p1) {
                Err(e) => Err(e),
                Ok((inner, p2)) => if 0 <= p2 < s.len() && s[p2] == ')' {
                    Ok((ExprV::Paren(Box::new(inner)), skip_spaces(s, p2 + 1)))
                } else {
                    Err(
                        ParseError {
                            kind: ParseErrorKind::UnexpectedToken,
                            pos: to_col(p2),
                            expected: Expected::CloseParen,
                        },
                    )
                },
            }
        } else {
            Err(dead_end())
        }
    } else {
        Err(
            ParseError {
                kind: ParseErrorKind::UnexpectedToken,
                pos: to_col(pos),
                expected: Expected::DigitOrOpenParen,
            },
        )
    }
}

/// `term := factor (('*' | '/') factor)*`, folded to the left.
pub open spec fn spec_term(s: Seq<char>, pos: int) -> Result<(ExprV, int), ParseError>
    decreases s.len() - pos, 2int,
{
    match spec_factor(s, pos) {
        Err(e) => Err(e),
        Ok((f, p)) => if pos < p <= s.len() {
            spec_term_rest(f, s, p)
        } else {
            Err(dead_end())
        },
    }
}

/// The left fold of `term`: while a `*` or `/` stands here, combine the
/// accumulated tree with the next factor.
pub open spec fn spec_term_rest(acc: ExprV, s: Seq<char>, pos: int) -> Result<
    (ExprV, int),
    ParseError,
>
    decreases s.len() - pos, 2int,
{
    if 0 <= pos < s.len() && (s[pos] == '*' || s[pos] == '/') {
        let p1 = skip_spaces(s, pos + 1);
        if pos < p1 <= s.len() {
            match spec_factor(s, p1) {
                Err(e) => Err(e),
                Ok((f, p2)) => {
                    let acc2 = if s[pos] == '*' {
                        ExprV::Mul(Box::new(acc), Box::new(f))
                    } else {
                        ExprV::Div(Box::new(acc), Box::new(f))
                    };
                    if pos < p2 <= s.len() {
                        spec_term_rest(acc2, s, p2)
                    } else {
                        Err(dead_end())
                    }
                },
            }
        } else {
            Err(dead_end())
        }
    } else {
        Ok((acc, pos))
    }
}

/// `expr := term (('+' | '-') term)*`, folded to the left.
pub open spec fn spec_expr(s: Seq<char>, pos: int) -> Result<(ExprV, int), ParseError>
    decreases s.len() - pos, 3int,
{
    match spec_term(s, pos) {
        Err(e) => Err(e),
        Ok((t, p)) => if pos < p <= s.len() {
            spec_expr_rest(t, s, p)
        } else {
            Err(dead_end())
        },
    }
}

/// The left fold of `expr`: while a `+` or `-` stands here, combine the
/// accumulated tree with the next term.
pub open spec fn spec_expr_rest(acc: ExprV, s: Seq<char>, pos: int) -> Result<
    (ExprV, int),
    ParseError,
>
    decreases s.len() - pos, 3int,
{
    if 0 <= pos < s.len() && (s[pos] == '+' || s[pos] == '-') {
        let p1 = skip_spaces(s, pos + 1);
        if pos < p1 <= s.len() {
            match spec_term(s, p1) {
                Err(e) => Err(e),
                Ok((t, p2)) => {
                    let acc2 = if s[pos] == '+' {
                        ExprV::Add(Box::new(acc), Box::new(t))
                    } else {
                        ExprV::Sub(Box::new(acc), Box::new(t))
                    };
                    if pos < p2 <= s.len() {
                        spec_expr_rest(acc2, s, p2)
                    } else {
                        Err(dead_end())
                    }
                },
            }
        } else {
            Err(dead_end())
        }
    } else {
        Ok((acc, pos))
    }
}

/// The whole grammar: leading whitespace, then one expression.  Whatever
/// follows the expression is left unconsumed for the caller to judge.
pub open spec fn spec_parse(s: Seq<char>) -> Result<(ExprV, int), ParseError> {
    spec_expr(s, skip_spaces(s, 0))
}

/// How an executable parse result relates to its grammar function: the same
/// error, or the same tree and resting position, the position having moved
/// and every leaf reduced.
pub open spec fn parse_result_matches(
    r: Result<(Expr, usize), ParseError>,
    sp: Result<(ExprV, int), ParseError>,
    s: Seq<char>,
    pos: int,
) -> bool {
    match r {
        Ok((e, p)) => sp == Ok::<(ExprV, int), ParseError>((e@, p as int)) && pos < p as int
            <= s.len() && expr_wf(e@),
        Err(pe) => sp == Err::<(ExprV, int), ParseError>(pe),
    }
}

/// The first position at or after `from` that does not hold whitespace.
fn skip_spaces_exec(s: &str, from: usize) -> (r: usize)
    requires
        from as int <= s@.len(),
    ensures
        r == skip_spaces(s@, from as int),
        from <= r,
        r as int <= s@.len(),
{
    let n = s.unicode_len();
    let mut i = from;
    loop
        invariant
            from <= i <= n,
            n == s@.len(),
            skip_spaces(s@, from as int) == skip_spaces(s@, i as int),
        ensures
            i == skip_spaces(s@, from as int),
            from <= i <= n,
        decreases n - i,
    {
        if i == n {
            break ;
        }
        let c = s.get_char(i);
        if !(c == ' ' || c == '\t' || c == '\n' || c == '\r') {
            break ;
        }
        i = i + 1;
    }
    i
}

/// The first position at or after `from` that does not hold a digit or `/`.
fn scan_numchars_exec(s: &str, from: usize) -> (r: usize)
    requires
        from as int <= s@.len(),
    ensures
        r == scan_numchars(s@, from as int),
        from <= r,
        r as int <= s@.len(),
{
    let n = s.unicode_len();
    let mut i = from;
    loop
        invariant
            from <= i <= n,
            n == s@.len(),
            scan_numchars(s@, from as int) == scan_numchars(s@, i as int),
        ensures
            i == scan_numchars(s@, from as int),
            from <= i <= n,
        decreases n - i,
    {
        if i == n {
            break ;
        }
        let c = s.get_char(i);
        if !((c >= '0' && c <= '9') || c == '/') {
            break ;
        }
        i = i + 1;
    }
    i
}

/// Reads one number token at `pos`: optional sign, the maximal digit-or-`/`
/// run as a literal, trailing whitespace skipped.
fn parse_number(s: &str, pos: usize) -> (r: Result<(NumericValue, usize), ParseError>)
    requires
        (pos as int) < s@.len(),
    ensures
        r is Ok ==> spec_number(s@, pos as int) == Ok::<(Rat, int), ParseError>(
            ((r->Ok_0).0@, (r->Ok_0).1 as int),
        ) && pos < (r->Ok_0).1 && (r->Ok_0).1 as int <= s@.len() && (r->Ok_0).0.wf(),
        r is Err ==> spec_number(s@, pos as int) == Err::<(Rat, int), ParseError>(r->Err_0),
{
    let n = s.unicode_len();
    let c = s.get_char(pos);
    let run_start: usize = if c == '+' || c == '-' {
        pos + 1
    } else {
        pos
    };
    let run_end = scan_numchars_exec(s, run_start);
    let sub = s.substring_char(pos, run_end);
    match literal_of(sub) {
        Ok(v) => {
            proof {
                if sub@.len() == 0 {
                    assert(spec_literal(sub@) is Err);
                }
            }
            let p = skip_spaces_exec(s, run_end);
            Ok((v, p))
        },
        Err((i, ex)) => {
            Err(
                ParseError {
                    kind: ParseErrorKind::MalformedLiteral,
                    pos: to_col_exec(pos + i),
                    expected: ex,
                },
            )
        },
    }
}

/// Reads one factor at `pos`: a signed number, or a parenthesized
/// expression.
fn parse_factor(s: &str, pos: usize) -> (r: Result<(Expr, usize), ParseError>)
    requires
        pos as int <= s@.len(),
    ensures
        parse_result_matches(r, spec_factor(s@, pos as int), s@, pos as int),
    decreases s@.len() - pos, 1int,
{
    let n = s.unicode_len();
    if pos == n {
        return Err(
            ParseError {
                kind: ParseErrorKind::UnexpectedToken,
                pos: to_col_exec(pos),
                expected: Expected::DigitOrOpenParen,
            },
        );
    }
    let c = s.get_char(pos);
    if (c >= '0' && c <= '9') || c == '/' || c == '+' || c == '-' {
        match parse_number(s, pos) {
            Ok((v, p)) => Ok((Expr::Num(v), p)),
            Err(e) => Err(e),
        }
    } else if c == '(' {
        let p1 = skip_spaces_exec(s, pos + 1);
        match parse_expr(s, p1) {
            Err(e) => Err(e),
            Ok((inner, p2)) => {
                if p2 < n {
                    let c2 = s.get_char(p2);
                    if c2 == ')' {
                        let p3 = skip_spaces_exec(s, p2 + 1);
                        return Ok((Expr::Paren(Box::new(inner)), p3));
                    }
                }
                Err(
                    ParseError {
                        kind: ParseErrorKind::UnexpectedToken,
                        pos: to_col_exec(p2),
                        expected: Expected::CloseParen,
                    },
                )
            },
        }
    } else {
        Err(
            ParseError {
                kind: ParseErrorKind::UnexpectedToken,
                pos: to_col_exec(pos),
                expected: Expected::DigitOrOpenParen,
            },
        )
    }
}

/// Reads one term at `pos`: a factor, then any chain of `*` or `/` factors,
/// folded to the left.
fn parse_term(s: &str, pos: usize) -> (r: Result<(Expr, usize), ParseError>)
    requires
        pos as int <= s@.len(),
    ensures
        parse_result_matches(r, spec_term(s@, pos as int), s@, pos as int),
    decreases s@.len() - pos, 2int,
{
    let n = s.unicode_len();
    let mut cur: Expr;
    let mut p: usize;
    match parse_factor(s, pos) {
        Err(e) => { return Err(e) },
        Ok((f, pf)) => {
            cur = f;
            p = pf;
        },
    }
    loop
        invariant
            pos < p <= n,
            n == s@.len(),
            expr_wf(cur@),
            spec_term(s@, pos as int) == spec_term_rest(cur@, s@, p as int),
        ensures
            pos < p <= n,
            n == s@.len(),
            expr_wf(cur@),
            spec_term(s@, pos as int) == Ok::<(ExprV, int), ParseError>((cur@, p as int)),
        decreases n - p,
    {
        if p == n {
            break ;
        }
        let c = s.get_char(p);
        if !(c == '*' || c == '/') {
            break ;
        }
        let p1 = skip_spaces_exec(s, p + 1);
        match parse_factor(s, p1) {
            Err(e) => { return Err(e) },
            Ok((f2, p2)) => {
                cur = if c == '*' {
                    Expr::Mul(Box::new(cur), Box::new(f2))
                } else {
                    Expr::Div(Box::new(cur), Box::new(f2))
                };
                p = p2;
            },
        }
    }
    Ok((cur, p))
}

/// Reads one expression at `pos`: a term, then any chain of `+` or `-`
/// terms, folded to the left.
fn parse_expr(s: &str, pos: usize) -> (r: Result<(Expr, usize), ParseError>)
    requires
        pos as int <= s@.len(),
    ensures
        parse_result_matches(r, spec_expr(s@, pos as int), s@, pos as int),
    decreases s@.len() - pos, 3int,
{
    let n = s.unicode_len();
    let mut cur: Expr;
    let mut p: usize;
    match parse_term(s, pos) {
        Err(e) => { return Err(e) },
        Ok((t, pt)) => {
            cur = t;
            p = pt;
        },
    }
    loop
        invariant
            pos < p <= n,
            n == s@.len(),
            expr_wf(cur@),
            spec_expr(s@, pos as int) == spec_expr_rest(cur@, s@, p as int),
        ensures
            pos < p <= n,
            n == s@.len(),
            expr_wf(cur@),
            spec_expr(s@, pos as int) == Ok::<(ExprV, int), ParseError>((cur@, p as int)),
        decreases n - p,
    {
        if p == n {
            break ;
        }
        let c = s.get_char(p);
        if !(c == '+' || c == '-') {
            break ;
        }
        let p1 = skip_spaces_exec(s, p + 1);
        match parse_term(s, p1) {
            Err(e) => { return Err(e) },
            Ok((t2, p2)) => {
                cur = if c == '+' {
                    Expr::Add(Box::new(cur), Box::new(t2))
                } else {
                    Expr::Sub(Box::new(cur), Box::new(t2))
                };
                p = p2;
            },
        }
    }
    Ok((cur, p))
}

/// Parses the longest valid prefix expression of `s` after leading
/// whitespace, returning the tree and the number of characters consumed, or
/// the error of the first position where no grammar alternative could
/// proceed.
pub fn parser(s: &str) -> (r: Result<(Expr, usize), ParseError>)
    ensures
        r is Ok ==> spec_parse(s@) == Ok::<(ExprV, int), ParseError>(
            ((r->Ok_0).0@, (r->Ok_0).1 as int),
        ) && expr_wf((r->Ok_0).0@) && (r->Ok_0).1 as int <= s@.len(),
        r is Err ==> spec_parse(s@) == Err::<(ExprV, int), ParseError>(r->Err_0),
{
    let p0 = skip_spaces_exec(s, 0);
    parse_expr(s, p0)
}

} // verus!
