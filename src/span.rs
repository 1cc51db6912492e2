use vstd::prelude::*;

verus! {

/// A half-open range `[start, end)` of character offsets into a named source file.
#[derive(Clone, Debug)]
pub struct Span {
    pub filename: String,
    pub start: usize,
    pub end: usize,
}

impl Span {
    /// A copy of this span.
    pub fn duplicate(&self) -> (r: Span)
        ensures
            r == *self,
    {
        Span { filename: self.filename.clone(), start: self.start, end: self.end }
    }
}

} // verus!
