use vstd::prelude::*;
use crate::text::{contains_sigil, names_contain, sigil, views_of};

verus! {

/// A token of one query line, in query-global character coordinates.
/// `focused` holds exactly when the cursor's line-relative offset lay within
/// `[pos1, pos2]` before the positions were shifted to global coordinates.
#[derive(Debug, Clone)]
pub struct QueryLineArg {
    pub value: String,
    pub pos1: i64,
    pub pos2: i64,
    pub focused: bool,
}

/// The characters on which the word tokenizer splits a line.
pub open spec fn is_blank(c: char) -> bool {
    c == ' ' || c == '\t' || c == '\r'
}

/// The words of `line` from position `i` on, when `i` does not sit inside a
/// word. Each word is a maximal run of non-blank characters, given as
/// `(text, start, end)` with `end` one past the last character.
pub open spec fn words_outside(line: Seq<char>, i: int) -> Seq<(Seq<char>, int, int)>
    decreases line.len() - i, 0int,
{
    if i >= line.len() {
        Seq::empty()
    } else if is_blank(line[i]) {
        words_outside(line, i + 1)
    } else {
        words_inside(line, i, i + 1)
    }
}

/// The words of `line` from position `i` on, when a word began at `start`
/// and has covered positions `start..i` so far.
pub open spec fn words_inside(line: Seq<char>, start: int, i: int) -> Seq<(Seq<char>, int, int)>
    decreases line.len() - i, 1int,
{
    if i >= line.len() {
        seq![(line.subrange(start, line.len() as int), start, line.len() as int)]
    } else if is_blank(line[i]) {
        seq![(line.subrange(start, i), start, i)] + words_outside(line, i + 1)
    } else {
        words_inside(line, start, i + 1)
    }
}

/// All words of the line, in order.
pub open spec fn words_of(line: Seq<char>) -> Seq<(Seq<char>, int, int)> {
    words_outside(line, 0)
}

/// The views of tokenizer output.
pub open spec fn word_views(v: Seq<(String, usize, usize)>) -> Seq<(Seq<char>, int, int)> {
    v.map_values(|t: (String, usize, usize)| (t.0@, t.1 as int, t.2 as int))
}

/// The views of extracted tokens.
pub open spec fn arg_views(v: Seq<QueryLineArg>) -> Seq<(Seq<char>, int, int, bool)> {
    v.map_values(|a: QueryLineArg| (a.value@, a.pos1 as int, a.pos2 as int, a.focused))
}

/// Splits one line into its words: maximal runs of non-blank characters,
/// each with its start offset and its end offset (one past the last
/// character), in character units relative to the line.
pub fn parse_words_from_line(line: &String) -> (r: Vec<(String, usize, usize)>)
    ensures
        word_views(r@) == words_of(line@),
        forall|k: int|
            0 <= k < r@.len() ==> 0 <= #[trigger] r@[k].1 <= r@[k].2 <= line@.len(),
{
    let ls = line.as_str();
    let n = ls.unicode_len();
    let mut out: Vec<(String, usize, usize)> = Vec::new();
    let mut i: usize = 0;
    let mut word_start: usize = 0;
    let mut in_word: bool = false;
    while i < n
        invariant
            n == line@.len(),
            ls@ == line@,
            i <= n,
            in_word ==> word_start < i,
            in_word ==> words_of(line@) == word_views(out@) + words_inside(
                line@,
                word_start as int,
                i as int,
            ),
            !in_word ==> words_of(line@) == word_views(out@) + words_outside(line@, i as int),
            forall|k: int|
                0 <= k < out@.len() ==> 0 <= #[trigger] out@[k].1 <= out@[k].2 <= line@.len(),
        decreases n - i,
    {
        let c = ls.get_char(i);
        let blank = c == ' ' || c == '\t' || c == '\r';
        if in_word && blank {
            let ghost old_out = out@;
            let w = String::from_str(ls.substring_char(word_start, i));
            out.push((w, word_start, i));
            proof {
                assert(word_views(out@) =~= word_views(old_out).push(
                    (line@.subrange(word_start as int, i as int), word_start as int, i as int),
                ));
                assert(word_views(old_out).push(
                    (line@.subrange(word_start as int, i as int), word_start as int, i as int),
                ) + words_outside(line@, i as int + 1) =~= word_views(old_out) + words_inside(
                    line@,
                    word_start as int,
                    i as int,
                ));
            }
            in_word = false;
        } else if !in_word && !blank {
            word_start = i;
            in_word = true;
        }
        i = i + 1;
    }
    if in_word {
        let ghost old_out = out@;
        let w = String::from_str(ls.substring_char(word_start, n));
        out.push((w, word_start, n));
        proof {
            assert(word_views(out@) =~= word_views(old_out).push(
                (line@.subrange(word_start as int, n as int), word_start as int, n as int),
            ));
            assert(word_views(old_out).push(
                (line@.subrange(word_start as int, n as int), word_start as int, n as int),
            ) =~= word_views(old_out) + words_inside(line@, word_start as int, n as int));
        }
    }
    out
}

/// The backward scan of the argument extractor stops at a registered command name once
/// the tokens gathered so far (all to its right) include either a focused
/// token holding the sigil or a token that is itself a registered name.
pub open spec fn scan_stops(acc: Seq<(Seq<char>, int, int, bool)>, names: Seq<Seq<char>>) -> bool {
    exists|i: int|
        0 <= i < acc.len() && ((#[trigger] acc[i]).0.contains(sigil()) && acc[i].3
            || names.contains(acc[i].0))
}

/// One word as a token: the focus test uses the line-relative positions and
/// the cursor's line-relative offset; the stored positions are shifted by the
/// line's absolute start offset.
pub open spec fn arg_of_word(w: (Seq<char>, int, int), cursor_rel: int, line_start: int) -> (
    Seq<char>,
    int,
    int,
    bool,
) {
    (w.0, w.1 + line_start, w.2 + line_start, w.1 <= cursor_rel && cursor_rel <= w.2)
}

/// The backward scan over the line's words: rightmost first, gathering
/// tokens into `acc`, stopping at a registered command name when
/// `scan_stops` already holds of what was gathered. The result is in
/// right-to-left order.
pub open spec fn scan_words_rev(
    words: Seq<(Seq<char>, int, int)>,
    names: Seq<Seq<char>>,
    cursor_rel: int,
    line_start: int,
    acc: Seq<(Seq<char>, int, int, bool)>,
) -> Seq<(Seq<char>, int, int, bool)>
    decreases words.len(),
{
    if words.len() == 0 {
        acc
    } else {
        let w = words.last();
        if names.contains(w.0) && scan_stops(acc, names) {
            acc
        } else {
            scan_words_rev(
                words.drop_last(),
                names,
                cursor_rel,
                line_start,
                acc.push(arg_of_word(w, cursor_rel, line_start)),
            )
        }
    }
}

/// The tokens the argument extractor yields for one line, left to right.
pub open spec fn line_args(
    line: Seq<char>,
    cursor_rel: int,
    line_start: int,
    names: Seq<Seq<char>>,
) -> Seq<(Seq<char>, int, int, bool)> {
    scan_words_rev(words_of(line), names, cursor_rel, line_start, Seq::empty()).reverse()
}

/// Whether the gathered tokens make the backward scan stop at the next
/// registered command name.
fn scan_stop_reached(acc: &Vec<QueryLineArg>, names: &Vec<String>) -> (r: bool)
    ensures
        r == scan_stops(arg_views(acc@), views_of(names@)),
{
    let n = acc.len();
    for i in 0..n
        invariant
            n == acc.len(),
            forall|j: int|
                0 <= j < i ==> !((#[trigger] arg_views(acc@)[j]).0.contains(sigil())
                    && arg_views(acc@)[j].3 || views_of(names@).contains(arg_views(acc@)[j].0)),
    {
        assert(arg_views(acc@)[i as int] == (acc@[i as int].value@, acc@[i as int].pos1 as int, acc@[i as int].pos2 as int, acc@[i as int].focused));
        let hit = (contains_sigil(&acc[i].value) && acc[i].focused) || names_contain(
            names,
            &acc[i].value,
        );
        if hit {
            assert(scan_stops(arg_views(acc@), views_of(names@)));
            return true;
        }
    }
    false
}

/// Turns one line's words into the ordered token list: scan the words from
/// the right, stop at a registered command name once the gathered tokens
/// already hold a focused sigil token or a registered name (only the nearest
/// trailing command binds), mark each kept word focused when the cursor's
/// line-relative offset lies within it, and shift its offsets by the line's
/// absolute start.
pub fn query_line_args(
    line: &String,
    cursor_rel: i64,
    cursor_line_start: i64,
    at_command_names: &Vec<String>,
) -> (r: Vec<QueryLineArg>)
    requires
        0 <= cursor_line_start,
        line@.len() + cursor_line_start <= i64::MAX,
    ensures
        arg_views(r@) == line_args(
            line@,
            cursor_rel as int,
            cursor_line_start as int,
            views_of(at_command_names@),
        ),
{
    let ghost names_v = views_of(at_command_names@);
    let ghost all_words = words_of(line@);
    let ghost scanned = scan_words_rev(
        all_words,
        names_v,
        cursor_rel as int,
        cursor_line_start as int,
        Seq::empty(),
    );
    let mut words = parse_words_from_line(line);
    let mut acc: Vec<QueryLineArg> = Vec::new();
    proof {
        assert(arg_views(acc@) =~= Seq::<(Seq<char>, int, int, bool)>::empty());
    }
    loop
        invariant_except_break
            scanned == scan_words_rev(
                word_views(words@),
                names_v,
                cursor_rel as int,
                cursor_line_start as int,
                arg_views(acc@),
            ),
        invariant
            names_v == views_of(at_command_names@),
            forall|k: int|
                0 <= k < words@.len() ==> 0 <= #[trigger] words@[k].1 <= words@[k].2
                    <= line@.len(),
            line@.len() + cursor_line_start <= i64::MAX,
            0 <= cursor_line_start,
        ensures
            scanned == arg_views(acc@),
        decreases words@.len(),
    {
        let ghost words_pre = words@;
        let w = match words.pop() {
            Some(w) => w,
            None => {
                proof {
                    assert(word_views(words@).len() == 0);
                }
                break ;
            },
        };
        proof {
            assert(w == words_pre[words_pre.len() - 1]);
            assert(0 <= w.1 <= w.2 <= line@.len());
            assert(words_pre =~= words@.push(w));
            assert(word_views(words_pre).drop_last() =~= word_views(words@));
            assert(word_views(words_pre).last() == (w.0@, w.1 as int, w.2 as int));
        }
        if names_contain(at_command_names, &w.0) && scan_stop_reached(&acc, at_command_names) {
            proof {
                assert(word_views(words_pre).len() > 0);
                assert(names_v.contains(word_views(words_pre).last().0));
                assert(scan_stops(arg_views(acc@), names_v));
                assert(scan_words_rev(
                    word_views(words_pre),
                    names_v,
                    cursor_rel as int,
                    cursor_line_start as int,
                    arg_views(acc@),
                ) == arg_views(acc@));
            }
            break ;
        }
        let focused = cursor_rel >= w.1 as i64 && cursor_rel <= w.2 as i64;
        let ghost old_acc = acc@;
        acc.push(
            QueryLineArg {
                value: w.0,
                pos1: w.1 as i64 + cursor_line_start,
                pos2: w.2 as i64 + cursor_line_start,
                focused,
            },
        );
        proof {
            assert(!(names_v.contains(word_views(words_pre).last().0) && scan_stops(
                arg_views(old_acc),
                names_v,
            )));
            assert(arg_views(acc@) =~= arg_views(old_acc).push(
                arg_of_word(
                    (w.0@, w.1 as int, w.2 as int),
                    cursor_rel as int,
                    cursor_line_start as int,
                ),
            ));
            assert(scan_words_rev(
                word_views(words_pre),
                names_v,
                cursor_rel as int,
                cursor_line_start as int,
                arg_views(old_acc),
            ) == scan_words_rev(
                word_views(words_pre).drop_last(),
                names_v,
                cursor_rel as int,
                cursor_line_start as int,
                arg_views(old_acc).push(
                    arg_of_word(
                        word_views(words_pre).last(),
                        cursor_rel as int,
                        cursor_line_start as int,
                    ),
                ),
            ));
        }
    }
    let ghost gathered = acc@;
    let mut r: Vec<QueryLineArg> = Vec::new();
    loop
        invariant
            r@.len() + acc@.len() == gathered.len(),
            acc@ =~= gathered.subrange(0, acc@.len() as int),
            forall|j: int| 0 <= j < r@.len() ==> r@[j] == gathered[gathered.len() - 1 - j],
        ensures
            r@.len() == gathered.len(),
            forall|j: int| 0 <= j < r@.len() ==> r@[j] == gathered[gathered.len() - 1 - j],
        decreases acc@.len(),
    {
        let x = match acc.pop() {
            Some(x) => x,
            None => { break ; },
        };
        r.push(x);
    }
    proof {
        assert(arg_views(r@) =~= arg_views(gathered).reverse());
    }
    r
}

} // verus!
