use vstd::prelude::*;

use crate::errors::Expected;
use crate::errors::ParseError;
use crate::errors::ParseErrorKind;
use crate::errors::to_col;
use crate::errors::to_col_exec;
use crate::rational::NumericValue;
use crate::rational::literal_of;
use crate::rational::spec_literal;

verus! {

/// The parse error reported when a whole string fails to read as a literal.
pub open spec fn literal_error(p: (int, Expected)) -> ParseError {
    ParseError { kind: ParseErrorKind::MalformedLiteral, pos: to_col(p.0), expected: p.1 }
}

/// Constructs a numeric value from a literal of the form
/// `[sign]digits['/'digits]`, such as `234` or `-3/7`, reduced to lowest
/// terms.  Fails with `MalformedLiteral` exactly when the string does not
/// match that grammar (a zero denominator included), pointing at the
/// offending column.
pub fn to_r(s: &str) -> (r: Result<NumericValue, ParseError>)
    ensures
        r is Ok ==> spec_literal(s@) is Ok && (r->Ok_0)@ == spec_literal(s@)->Ok_0 && (
        r->Ok_0).wf(),
        r is Err ==> spec_literal(s@) is Err && r->Err_0 == literal_error(
            spec_literal(s@)->Err_0,
        ),
{
    match literal_of(s) {
        Ok(v) => Ok(v),
        Err((i, ex)) => Err(
            ParseError {
                kind: ParseErrorKind::MalformedLiteral,
                pos: to_col_exec(i),
                expected: ex,
            },
        ),
    }
}

} // verus!
