use vstd::prelude::*;
use crate::error::RequestError;

verus! {

/// How many newline characters the text holds.
pub open spec fn newline_count(s: Seq<char>) -> int
    decreases s.len(),
{
    if s.len() == 0 {
        0
    } else {
        newline_count(s.drop_last()) + if s.last() == '\n' {
            1int
        } else {
            0int
        }
    }
}

/// How many lines the locator walks: one per newline, plus a final line
/// only when some text follows the last newline.
pub open spec fn line_count(s: Seq<char>) -> int {
    newline_count(s) + if s.len() > 0 && s.last() != '\n' {
        1int
    } else {
        0int
    }
}

/// The sum of the walked lines' lengths: every character except the newlines.
pub open spec fn line_length_sum(s: Seq<char>) -> int {
    s.len() - newline_count(s)
}

/// Whether some line of `text` contains the offset `cursor`: a cursor may sit
/// anywhere in a line up to and including its end, so every offset short of
/// the whole text qualifies, and the offset just past it only when the text
/// does not end in a newline (there is then no line for it to end).
pub open spec fn cursor_in_text(text: Seq<char>, cursor: int) -> bool {
    0 <= cursor && (cursor < text.len() || (cursor == text.len() && text.len() > 0
        && text.last() != '\n'))
}

/// The piece of `text` beginning at `start` and running for `len` characters
/// is exactly one line: it follows a newline or the start of the text, holds
/// no newline, and runs up to a newline or the end of the text.
pub open spec fn line_bounds_at(text: Seq<char>, start: int, len: int) -> bool {
    &&& 0 <= start
    &&& 0 <= len
    &&& start + len <= text.len()
    &&& (start == 0 || text[start - 1] == '\n')
    &&& (forall|j: int| start <= j < start + len ==> text[j] != '\n')
    &&& (start + len == text.len() || text[start + len] == '\n')
}

/// Finds the line of `query` that contains the absolute character offset
/// `cursor`, and returns that line's text, the cursor's offset relative to
/// the line, and the line's absolute start offset. Fails exactly when no
/// line contains the cursor.
pub fn get_line_with_cursor(query: &String, cursor: i64) -> (r: Result<
    (String, i64, i64),
    RequestError,
>)
    requires
        0 <= cursor,
        query@.len() <= i64::MAX,
    ensures
        r is Ok <==> cursor_in_text(query@, cursor as int),
        (r matches Ok(t) ==> {
            &&& line_bounds_at(query@, t.2 as int, t.0@.len() as int)
            &&& t.0@ == query@.subrange(t.2 as int, t.2 as int + t.0@.len())
            &&& t.2 + t.1 == cursor
            &&& 0 <= t.1 <= t.0@.len()
        }),
        r matches Err(e) ==> e == RequestError::OutOfRange,
{
    let qs = query.as_str();
    let n = qs.unicode_len();
    let mut start: usize = 0;
    let mut i: usize = 0;
    while i < n
        invariant
            n == query@.len(),
            n <= i64::MAX,
            qs@ == query@,
            0 <= start <= i <= n,
            start == 0 || query@[start as int - 1] == '\n',
            forall|j: int| start <= j < i ==> query@[j] != '\n',
            cursor >= start as i64,
            0 <= cursor,
        decreases n - i,
    {
        let c = qs.get_char(i);
        if c == '\n' {
            if cursor <= i as i64 {
                let line = String::from_str(qs.substring_char(start, i));
                return Ok((line, cursor - start as i64, start as i64));
            }
            start = i + 1;
        }
        i = i + 1;
    }
    if start < n && cursor <= n as i64 {
        let line = String::from_str(qs.substring_char(start, n));
        return Ok((line, cursor - start as i64, start as i64));
    }
    Err(RequestError::OutOfRange)
}

/// A cursor greater than the sum of the line lengths plus the separators
/// between consecutive lines lies in no line.
pub proof fn lemma_cursor_past_lines_out_of_range(text: Seq<char>, cursor: int)
    requires
        cursor > line_length_sum(text) + line_count(text) - 1,
    ensures
        !cursor_in_text(text, cursor),
{
}

} // verus!
