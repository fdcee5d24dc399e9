use vstd::prelude::*;

verus! {

/// The recoverable, client-input failure classes of the completion engine:
/// a cursor offset past the end of the query text (line location), and a
/// `(line, character)` position outside a named source text (position
/// validation). Everything else the engine reports as an ordinary result.
#[derive(Clone, Copy, PartialEq, Eq, Structural, Debug)]
pub enum RequestError {
    OutOfRange,
    LineOutOfRange,
    ColumnOutOfRange,
    UnknownSourceFile,
}

impl RequestError {
    /// A short description for callers that surface the rejection.
    pub fn message(&self) -> (r: &'static str)
        ensures
            *self == RequestError::OutOfRange ==> r@ == "incorrect cursor provided"@,
            *self == RequestError::LineOutOfRange ==> r@
                == "Invalid post: line number exceeds lines in file"@,
            *self == RequestError::ColumnOutOfRange ==> r@
                == "Invalid post: char number exceeds chars in line"@,
            *self == RequestError::UnknownSourceFile ==> r@
                == "Invalid post: cursor in a file that is not a source"@,
    {
        match self {
            RequestError::OutOfRange => "incorrect cursor provided",
            RequestError::LineOutOfRange => "Invalid post: line number exceeds lines in file",
            RequestError::ColumnOutOfRange => "Invalid post: char number exceeds chars in line",
            RequestError::UnknownSourceFile => "Invalid post: cursor in a file that is not a source",
        }
    }
}

} // verus!
