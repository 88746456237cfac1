//! Parses textual arithmetic over exact rationals — integers and fractions,
//! `+ - * /`, parentheses, unary sign, whitespace — into an expression tree,
//! and evaluates or renders that tree.  Every function is specified against a
//! mathematical model of the grammar and of reduced rational arithmetic.

mod errors;
mod eval;
mod laws;
mod parser;
mod rational;
mod types;
mod utils;

pub use errors::EvalError;
pub use errors::Expected;
pub use errors::ParseError;
pub use errors::ParseErrorKind;
pub use eval::eval;
pub use laws::lemma_literal_parse_eval;
pub use parser::parser;
pub use rational::NumericValue;
pub use rational::Rat;
pub use types::Expr;
pub use types::expr_eq;
pub use types::render;
pub use utils::to_r;
