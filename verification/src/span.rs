use vstd::prelude::*;

verus! {

/// A half-open range `[start, end)` of offsets into the scanned input,
/// locating a token or an error in the original sequence.
#[derive(Clone, Copy, Debug, PartialEq, Eq, Structural)]
pub struct Span {
    pub start: usize,
    pub end: usize,
}

/// The span given to synthesized tokens, which have no source position.
pub open spec fn synth_span() -> Span {
    Span { start: 0, end: 0 }
}

/// Builds the span synthesized tokens carry.
pub fn synthetic_span() -> (s: Span)
    ensures
        s == synth_span(),
{
    Span { start: 0, end: 0 }
}

impl Span {
    /// Builds the span `[start, end)`.
    pub fn new(start: usize, end: usize) -> (s: Span)
        ensures
            s == (Span { start, end }),
    {
        Span { start, end }
    }

    /// The span as a `(start, end)` pair.
    pub fn as_tuple(&self) -> (t: (usize, usize))
        ensures
            t.0 == self.start,
            t.1 == self.end,
    {
        (self.start, self.end)
    }
}

} // verus!
