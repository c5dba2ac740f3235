//! Source positions attached to syntax nodes and diagnostics.

use vstd::prelude::*;

verus! {

/// A region of the source text: 1-based line and column of its start and the byte
/// offsets of its first and last byte.
#[derive(Debug, Clone, Copy, PartialEq, Eq, Structural)]
pub struct Span {
    pub line: usize,
    pub column: usize,
    pub start: usize,
    pub end: usize,
}

impl Span {
    pub fn new(line: usize, column: usize, start: usize, end: usize) -> (span: Self)
        ensures
            span == (Span { line, column, start, end }),
    {
        Self { line, column, start, end }
    }

    /// The span that stands for "no position".
    pub open spec fn empty() -> Span {
        Span { line: 0, column: 0, start: 0, end: 0 }
    }
}

impl Default for Span {
    fn default() -> (span: Self)
        ensures
            span == Span::empty(),
    {
        Self { line: 0, column: 0, start: 0, end: 0 }
    }
}

} // verus!
