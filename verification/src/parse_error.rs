//! Parse errors. The parser stops at the first one.

use vstd::prelude::*;
use crate::token::{Token, TokenModel};

verus! {

/// Why parsing stopped.
#[derive(Debug, PartialEq)]
pub enum ParserError {
    /// A specific token was expected and something else was found.
    UnexpectedToken { expected: Token, found: Token, line: usize, col: usize },
    /// The stream ended while something was still required.
    UnexpectedEOF { expected: String, line: usize, col: usize },
    /// A token appeared where no production matches.
    UnsupportedToken { found: Token, line: usize, col: usize },
}

/// Mathematical image of a [`ParserError`].
pub enum ParserErrorModel {
    UnexpectedToken { expected: TokenModel, found: TokenModel, line: int, col: int },
    UnexpectedEOF { expected: Seq<char>, line: int, col: int },
    UnsupportedToken { found: TokenModel, line: int, col: int },
}

impl View for ParserError {
    type V = ParserErrorModel;

    open spec fn view(&self) -> ParserErrorModel {
        match self {
            ParserError::UnexpectedToken { expected, found, line, col } =>
                ParserErrorModel::UnexpectedToken {
                expected: expected@,
                found: found@,
                line: *line as int,
                col: *col as int,
            },
            ParserError::UnexpectedEOF { expected, line, col } => ParserErrorModel::UnexpectedEOF {
                expected: expected@,
                line: *line as int,
                col: *col as int,
            },
            ParserError::UnsupportedToken { found, line, col } =>
                ParserErrorModel::UnsupportedToken {
                found: found@,
                line: *line as int,
                col: *col as int,
            },
        }
    }
}

pub type ParseResult<T> = Result<T, ParserError>;

} // verus!
