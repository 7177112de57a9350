use vstd::prelude::*;

verus! {

/// A region of a source file: the file's id and a byte range.
#[derive(Clone, Copy, Debug, PartialEq, Eq, Structural)]
pub struct Span {
    pub file_id: usize,
    pub start: usize,
    pub end: usize,
}

impl Span {
    /// The span of something that has no place in a source file.
    pub fn unknown() -> (s: Span)
        ensures
            s == (Span { file_id: 0, start: 0, end: 0 }),
    {
        Span { file_id: 0, start: 0, end: 0 }
    }

    /// The span from the start of `a` to the end of `b`, in `a`'s file.
    pub fn merge(a: &Span, b: &Span) -> (s: Span)
        ensures
            s == (Span { file_id: a.file_id, start: a.start, end: b.end }),
    {
        Span { file_id: a.file_id, start: a.start, end: b.end }
    }
}

} // verus!
