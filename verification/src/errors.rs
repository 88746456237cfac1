use vstd::prelude::*;

verus! {

/// What the parser was looking for at the position where it gave up.
#[derive(Debug, Clone, Copy, PartialEq, Eq, Structural)]
pub enum Expected {
    /// A decimal digit had to follow.
    Digit,
    /// An operand had to start here: a signed number or an opening parenthesis.
    DigitOrOpenParen,
    /// A closing parenthesis had to follow.
    CloseParen,
    /// The denominator digits of a fraction literal spelled the zero value.
    NonzeroDenominator,
}

/// The two ways a parse can fail.
#[derive(Debug, Clone, Copy, PartialEq, Eq, Structural)]
pub enum ParseErrorKind {
    /// A number token was begun but does not match the literal grammar.
    MalformedLiteral,
    /// A structural token was required but not found.
    UnexpectedToken,
}

/// A parse failure: its kind, the 1-based column of the offending character,
/// and a description of what was expected there.
#[derive(Debug, Clone, Copy, PartialEq, Eq, Structural)]
pub struct ParseError {
    pub kind: ParseErrorKind,
    pub pos: usize,
    pub expected: Expected,
}

/// The only way evaluation can fail.
#[derive(Debug, Clone, Copy, PartialEq, Eq, Structural)]
pub enum EvalError {
    DivisionByZero,
}

/// The 1-based column for the 0-based character index `i`.
pub open spec fn to_col(i: int) -> usize {
    if i + 1 <= usize::MAX {
        (i + 1) as usize
    } else {
        usize::MAX
    }
}

/// Turns a 0-based character index into the 1-based column carried by errors.
pub fn to_col_exec(i: usize) -> (c: usize)
    ensures
        c == to_col(i as int),
{
    if i < usize::MAX {
        i + 1
    } else {
        usize::MAX
    }
}

} // verus!
