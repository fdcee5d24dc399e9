use vstd::prelude::*;
use crate::error::RequestError;
use crate::locate::newline_count;

verus! {

/// How the position validator counts lines: one piece between consecutive
/// newlines, one before the first and one after the last — so a text that
/// ends in a newline still has a (possibly empty) final line.
pub open spec fn position_line_count(s: Seq<char>) -> int {
    newline_count(s) + 1
}

/// The first newline at or after `j`, or the text length when none follows.
pub open spec fn next_newline(s: Seq<char>, j: int) -> int
    decreases s.len() - j,
{
    if j >= s.len() {
        s.len() as int
    } else if s[j] == '\n' {
        j
    } else {
        next_newline(s, j + 1)
    }
}

/// Where the `i`-th line begins: right after the newline that ended the
/// previous one.
pub open spec fn piece_start(s: Seq<char>, i: int) -> int
    decreases i,
{
    if i <= 0 {
        0
    } else {
        next_newline(s, piece_start(s, i - 1)) + 1
    }
}

/// The `i`-th line's character count, its newline not included.
pub open spec fn piece_len(s: Seq<char>, i: int) -> int {
    next_newline(s, piece_start(s, i)) - piece_start(s, i)
}

proof fn lemma_next_newline_from_props(s: Seq<char>, start: int, i: int)
    requires
        0 <= start <= i <= s.len(),
        forall|m: int| start <= m < i ==> s[m] != '\n',
        i < s.len() ==> s[i] == '\n',
    ensures
        next_newline(s, start) == i,
    decreases i - start,
{
    if start == i {
    } else {
        lemma_next_newline_from_props(s, start + 1, i);
    }
}

proof fn lemma_newline_count_take_bounds(s: Seq<char>, i: int)
    requires
        0 <= i <= s.len(),
    ensures
        0 <= newline_count(s.take(i)) <= newline_count(s),
    decreases s.len(),
{
    if s.len() == 0 {
        assert(s.take(i) =~= s);
    } else if i == s.len() {
        assert(s.take(i) =~= s);
        lemma_newline_count_take_bounds(s.drop_last(), i - 1);
        assert(s.drop_last().take(i - 1) =~= s.drop_last());
    } else {
        lemma_newline_count_take_bounds(s.drop_last(), i);
        assert(s.drop_last().take(i) =~= s.take(i));
    }
}

/// Bounds-checks a `(line, character)` position against one source text:
/// `line` must name one of its lines, and `character` may sit anywhere in
/// that line up to and including its end. Character counts, not bytes.
pub fn validate_cursor_position(source: &String, line: i32, character: i32) -> (r: Result<
    (),
    RequestError,
>)
    ensures
        r is Ok <==> (0 <= line < position_line_count(source@) && 0 <= character <= piece_len(
            source@,
            line as int,
        )),
        r == Err::<(), RequestError>(RequestError::LineOutOfRange) <==> !(0 <= line
            < position_line_count(source@)),
        r == Err::<(), RequestError>(RequestError::ColumnOutOfRange) <==> (0 <= line
            < position_line_count(source@) && !(0 <= character <= piece_len(
            source@,
            line as int,
        ))),
{
    let ss = source.as_str();
    let n = ss.unicode_len();
    proof {
        lemma_newline_count_take_bounds(source@, n as int);
    }
    if line < 0 {
        return Err(RequestError::LineOutOfRange);
    }
    let target = line as usize;
    let mut i: usize = 0;
    let mut nl_seen: usize = 0;
    let mut start: usize = 0;
    loop
        invariant
            n == source@.len(),
            ss@ == source@,
            start <= i <= n,
            nl_seen <= target,
            target <= i32::MAX,
            newline_count(source@.take(i as int)) == nl_seen,
            piece_start(source@, nl_seen as int) == start,
            forall|m: int| start <= m < i ==> source@[m] != '\n',
        ensures
            start <= i <= n,
            newline_count(source@.take(i as int)) == nl_seen,
            piece_start(source@, nl_seen as int) == start,
            forall|m: int| start <= m < i ==> source@[m] != '\n',
            nl_seen == target || (i == n && nl_seen < target),
        decreases n - i,
    {
        if nl_seen == target {
            break ;
        }
        if i == n {
            break ;
        }
        let c = ss.get_char(i);
        proof {
            assert(source@.take(i + 1).drop_last() =~= source@.take(i as int));
            assert(source@.take(i + 1).last() == source@[i as int]);
        }
        if c == '\n' {
            proof {
                lemma_next_newline_from_props(source@, start as int, i as int);
            }
            nl_seen = nl_seen + 1;
            start = i + 1;
        }
        i = i + 1;
    }
    proof {
        lemma_newline_count_take_bounds(source@, n as int);
        assert(source@.take(n as int) =~= source@);
    }
    if nl_seen < target {
        proof {
            assert(newline_count(source@) == nl_seen);
        }
        return Err(RequestError::LineOutOfRange);
    }
    let mut j: usize = i;
    loop
        invariant
            n == source@.len(),
            ss@ == source@,
            start <= j <= n,
            forall|m: int| start <= m < j ==> source@[m] != '\n',
        ensures
            start <= j <= n,
            forall|m: int| start <= m < j ==> source@[m] != '\n',
            j == n || source@[j as int] == '\n',
        decreases n - j,
    {
        if j == n {
            break ;
        }
        if ss.get_char(j) == '\n' {
            break ;
        }
        j = j + 1;
    }
    proof {
        lemma_next_newline_from_props(source@, start as int, j as int);
        assert(piece_len(source@, line as int) == j - start);
        assert(newline_count(source@) >= nl_seen) by {
            lemma_newline_count_take_bounds(source@, i as int);
        }
    }
    let width = j - start;
    if character < 0 {
        return Err(RequestError::ColumnOutOfRange);
    }
    if character as usize > width {
        return Err(RequestError::ColumnOutOfRange);
    }
    Ok(())
}

/// A cursor position inside one named source file, in line and character
/// units.
#[derive(Debug, Clone, Default)]
pub struct CursorPosition {
    pub file: String,
    pub line: i32,
    pub character: i32,
}

/// The inputs of a code-completion request: the sources by file name, the
/// cursor, and whether a multi-line completion is wanted.
#[derive(Debug, Clone, Default)]
pub struct CodeCompletionInputs {
    pub sources: Vec<(String, String)>,
    pub cursor: CursorPosition,
    pub multiline: bool,
}

/// A code-completion request as the caller hands it in.
#[derive(Debug, Clone)]
pub struct CodeCompletionPost {
    pub inputs: CodeCompletionInputs,
    pub model: String,
    pub stream: bool,
    pub no_cache: bool,
    pub use_ast: bool,
    pub use_vecdb: bool,
    pub rag_tokens_n: usize,
}

/// The text of the first source whose file name matches, if any.
pub open spec fn source_for(sources: Seq<(String, String)>, file: Seq<char>) -> Option<Seq<char>>
    decreases sources.len(),
{
    if sources.len() == 0 {
        None
    } else if sources[0].0@ == file {
        Some(sources[0].1@)
    } else {
        source_for(sources.skip(1), file)
    }
}

proof fn lemma_source_for_from_props(sources: Seq<(String, String)>, file: Seq<char>, k: int)
    requires
        0 <= k <= sources.len(),
        forall|j: int| 0 <= j < k ==> (#[trigger] sources[j]).0@ != file,
        k < sources.len() ==> sources[k].0@ == file,
    ensures
        k < sources.len() ==> source_for(sources, file) == Some(sources[k].1@),
        k == sources.len() ==> source_for(sources, file) is None,
    decreases sources.len(),
{
    if sources.len() == 0 {
    } else if sources[0].0@ == file {
        assert(k == 0);
    } else {
        lemma_source_for_from_props(sources.skip(1), file, k - 1);
    }
}

/// Validates a code-completion request: the cursor must name a file among
/// the sources, sit on one of its lines, and sit within that line — at most
/// one past its last character. A request that fails is rejected, never
/// retried or panicked on.
pub fn code_completion_post_validate(post: &CodeCompletionPost) -> (r: Result<(), RequestError>)
    ensures
        ({
            let found = source_for(post.inputs.sources@, post.inputs.cursor.file@);
            match found {
                Option::None => r == Err::<(), RequestError>(RequestError::UnknownSourceFile),
                Option::Some(text) => {
                    &&& (r is Ok <==> (0 <= post.inputs.cursor.line < position_line_count(text)
                        && 0 <= post.inputs.cursor.character <= piece_len(
                        text,
                        post.inputs.cursor.line as int,
                    )))
                    &&& (r == Err::<(), RequestError>(RequestError::LineOutOfRange) <==> !(0
                        <= post.inputs.cursor.line < position_line_count(text)))
                    &&& (r == Err::<(), RequestError>(RequestError::ColumnOutOfRange) <==> (0
                        <= post.inputs.cursor.line < position_line_count(text) && !(0
                        <= post.inputs.cursor.character <= piece_len(
                        text,
                        post.inputs.cursor.line as int,
                    ))))
                },
            }
        }),
{
    let m = post.inputs.sources.len();
    let mut idx: usize = 0;
    loop
        invariant
            m == post.inputs.sources@.len(),
            idx <= m,
            forall|j: int|
                0 <= j < idx ==> (#[trigger] post.inputs.sources@[j]).0@
                    != post.inputs.cursor.file@,
        ensures
            idx <= m,
            forall|j: int|
                0 <= j < idx ==> (#[trigger] post.inputs.sources@[j]).0@
                    != post.inputs.cursor.file@,
            idx < m ==> post.inputs.sources@[idx as int].0@ == post.inputs.cursor.file@,
        decreases m - idx,
    {
        if idx == m {
            break ;
        }
        if crate::text::string_eq(&post.inputs.sources[idx].0, &post.inputs.cursor.file) {
            break ;
        }
        idx = idx + 1;
    }
    proof {
        lemma_source_for_from_props(
            post.inputs.sources@,
            post.inputs.cursor.file@,
            idx as int,
        );
    }
    if idx == m {
        return Err(RequestError::UnknownSourceFile);
    }
    validate_cursor_position(
        &post.inputs.sources[idx].1,
        post.inputs.cursor.line,
        post.inputs.cursor.character,
    )
}

} // verus!
