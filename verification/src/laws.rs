use vstd::prelude::*;

use crate::errors::EvalError;
use crate::errors::ParseError;
use crate::eval::eval_spec;
use crate::parser::lemma_scan_numchars;
use crate::parser::scan_numchars;
use crate::parser::skip_spaces;
use crate::parser::spec_expr;
use crate::parser::spec_factor;
use crate::parser::spec_number;
use crate::parser::spec_parse;
use crate::parser::spec_term;
use crate::rational::Rat;
use crate::rational::lemma_scan_digits;
use crate::rational::scan_digits;
use crate::rational::spec_literal;
use crate::types::ExprV;

verus! {

/// Law: a string that is a valid numeric literal parses, as a whole
/// expression, into the single leaf holding exactly the value that literal
/// construction gives, and evaluating that leaf yields that same value.
pub proof fn lemma_literal_parse_eval(s: Seq<char>)
    requires
        spec_literal(s) is Ok,
    ensures
        spec_parse(s) == Ok::<(ExprV, int), ParseError>(
            (ExprV::Num(spec_literal(s)->Ok_0), s.len() as int),
        ),
        eval_spec(ExprV::Num(spec_literal(s)->Ok_0)) == Ok::<Rat, EvalError>(
            spec_literal(s)->Ok_0,
        ),
{
    let len = s.len() as int;
    assert(s.len() > 0);
    let off: int = if s[0] == '+' || s[0] == '-' {
        1
    } else {
        0
    };
    let dend = scan_digits(s, off);
    assert(dend > off);
    lemma_scan_digits(s, off);

    // Every character from the sign (if any) to the end is a digit or `/`,
    // so the number token's run covers the whole string.
    if dend < len {
        assert(s[dend] == '/');
        let d2 = scan_digits(s, dend + 1);
        lemma_scan_digits(s, dend + 1);
        assert(d2 == len);
    }
    lemma_scan_numchars(s, off);
    let run_end = scan_numchars(s, off);
    assert(run_end == len) by {
        if run_end < len {
            assert(run_end >= off);
        }
    }
    assert(s.subrange(0, len) =~= s);

    // Leading whitespace: the first character is a sign or a digit, so none
    // is skipped, and the token ends at the end of the string.
    assert(skip_spaces(s, 0) == 0);
    assert(skip_spaces(s, len) == len);

    let v = spec_literal(s)->Ok_0;
    assert(spec_number(s, 0) == Ok::<(Rat, int), ParseError>((v, len)));
    assert(spec_factor(s, 0) == Ok::<(ExprV, int), ParseError>((ExprV::Num(v), len)));
    assert(spec_term(s, 0) == Ok::<(ExprV, int), ParseError>((ExprV::Num(v), len)));
    assert(spec_expr(s, 0) == Ok::<(ExprV, int), ParseError>((ExprV::Num(v), len)));
}

} // verus!
