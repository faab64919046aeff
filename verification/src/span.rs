use vstd::prelude::*;

verus! {

/// A half-open byte range `[start, end)` of the source text.
#[derive(Clone, Copy, Debug, PartialEq, Eq, Structural)]
pub struct Span {
    pub start: usize,
    pub end: usize,
}

impl Span {
    /// Creates a span from its two ends.
    pub fn new(start: usize, end: usize) -> (s: Span)
        ensures
            s.start == start,
            s.end == end,
    {
        Span { start, end }
    }

    /// The empty span at offset zero, used where no source position applies.
    pub fn empty() -> (s: Span)
        ensures
            s.start == 0,
            s.end == 0,
    {
        Span { start: 0, end: 0 }
    }

    /// The key under which static analysis records a resolved distance.
    pub fn key(&self) -> (k: (usize, usize))
        ensures
            k == (self.start, self.end),
    {
        (self.start, self.end)
    }
}

} // verus!
