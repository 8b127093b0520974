//! The parser's error type.

use vstd::prelude::*;

verus! {

/// Why a query text was not accepted.
#[derive(Clone, Copy, Debug, PartialEq, Eq, Structural)]
pub enum ParseError {
    /// The query ended where more was expected.
    UnexpectedEoq,
    /// The query holds no statement.
    EmptyQueryError,
    /// The query holds a word that has no meaning at its place.
    UnknownError,
}

} // verus!
