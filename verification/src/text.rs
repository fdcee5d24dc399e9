use vstd::prelude::*;

verus! {

/// The sigil that marks a command token.
pub open spec fn sigil() -> char {
    '@'
}

/// True when the token text begins with the command sigil.
pub open spec fn has_sigil_prefix(s: Seq<char>) -> bool {
    s.len() > 0 && s[0] == sigil()
}

/// The views of a sequence of strings.
pub open spec fn views_of(v: Seq<String>) -> Seq<Seq<char>> {
    v.map_values(|s: String| s@)
}

/// Character-for-character equality of two strings.
pub fn string_eq(a: &String, b: &String) -> (r: bool)
    ensures
        r == (a@ == b@),
{
    a.eq(b)
}

/// Whether some string in `names` has exactly the characters of `x`.
pub fn names_contain(names: &Vec<String>, x: &String) -> (r: bool)
    ensures
        r == views_of(names@).contains(x@),
{
    let n = names.len();
    for i in 0..n
        invariant
            n == names.len(),
            forall|j: int| 0 <= j < i ==> views_of(names@)[j] != x@,
    {
        assert(views_of(names@)[i as int] == names@[i as int]@);
        if string_eq(&names[i], x) {
            assert(views_of(names@)[i as int] == x@);
            return true;
        }
    }
    assert(forall|j: int| 0 <= j < views_of(names@).len() ==> views_of(names@)[j] != x@);
    false
}

/// Whether the string begins with the command sigil.
pub fn starts_with_sigil(s: &String) -> (r: bool)
    ensures
        r == has_sigil_prefix(s@),
{
    let st = s.as_str();
    if st.unicode_len() == 0 {
        false
    } else {
        st.get_char(0) == '@'
    }
}

/// Whether the string contains the command sigil anywhere.
pub fn contains_sigil(s: &String) -> (r: bool)
    ensures
        r == s@.contains(sigil()),
{
    let st = s.as_str();
    let n = st.unicode_len();
    for i in 0..n
        invariant
            n == s@.len(),
            st@ == s@,
            forall|j: int| 0 <= j < i ==> s@[j] != sigil(),
    {
        if st.get_char(i) == '@' {
            assert(s@.contains(sigil()));
            return true;
        }
    }
    assert(!s@.contains(sigil()));
    false
}

/// Whether `p` is a prefix of `s`, character for character.
pub fn is_char_prefix(p: &String, s: &String) -> (r: bool)
    ensures
        r == p@.is_prefix_of(s@),
{
    let ps = p.as_str();
    let ss = s.as_str();
    let pn = ps.unicode_len();
    let sn = ss.unicode_len();
    if pn > sn {
        assert(!p@.is_prefix_of(s@));
        return false;
    }
    for i in 0..pn
        invariant
            pn == p@.len(),
            sn == s@.len(),
            pn <= sn,
            ps@ == p@,
            ss@ == s@,
            forall|j: int| 0 <= j < i ==> p@[j] == s@[j],
    {
        if ps.get_char(i) != ss.get_char(i) {
            assert(!p@.is_prefix_of(s@));
            return false;
        }
    }
    assert(p@ =~= s@.subrange(0, p@.len() as int));
    true
}

/// The first `n` characters of `s` (all of `s` when it is shorter), as the
/// completion handler keeps only the part of the line left of the cursor.
pub fn prefix_chars(s: &String, n: usize) -> (r: String)
    ensures
        r@ == s@.take(vstd::math::min(n as int, s@.len() as int)),
{
    let st = s.as_str();
    let len = st.unicode_len();
    let k = if n < len {
        n
    } else {
        len
    };
    let sub = st.substring_char(0, k);
    String::from_str(sub)
}

} // verus!
