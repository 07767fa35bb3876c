use vstd::prelude::*;

verus! {

/// Why a text could not be turned into a date and time.
#[derive(Clone, Copy, Debug, PartialEq, Eq, Structural)]
pub enum ErrorKind {
    /// No expression pattern covers the whole text.
    UnrecognizedInput,
    /// The text reads as more than one expression of equal rank. The rules here
    /// are tried in a fixed order and the first that matches wins, so no parse
    /// returns this kind; it is kept for callers that handle every kind.
    AmbiguousExpression,
    /// A field, a number or a result lies outside its valid range.
    OutOfRangeField,
}

/// A parse failure: its kind and the byte span of the text it concerns.
/// The span is empty when no particular part of the text is at fault.
#[derive(Clone, Copy, Debug, PartialEq, Eq, Structural)]
pub struct ParseError {
    pub kind: ErrorKind,
    pub start: usize,
    pub end: usize,
}

/// A failure of the given kind over bytes `start..end`.
pub open spec fn error_at(kind: ErrorKind, start: int, end: int) -> ParseError {
    ParseError { kind, start: start as usize, end: end as usize }
}

/// A failure of the given kind that points at no part of the text.
pub open spec fn error_of(kind: ErrorKind) -> ParseError {
    ParseError { kind, start: 0, end: 0 }
}

impl ParseError {
    /// A failure of the given kind that points at no part of the text.
    pub fn new(kind: ErrorKind) -> (r: ParseError)
        ensures
            r == error_of(kind),
    {
        ParseError { kind, start: 0, end: 0 }
    }
}

} // verus!
