use vstd::prelude::*;
use crate::text::{is_char_prefix, views_of};

verus! {

/// What strsim's `jaro_winkler` returns for the two strings, as the raw bits
/// of the IEEE-754 double: a function of the two character sequences alone.
pub uninterp spec fn jaro_winkler_bits(a: Seq<char>, b: Seq<char>) -> u64;

/// Relies on strsim::jaro_winkler: a prefix-boosted similarity computed from
/// the two strings' characters alone, always within [0.0, 1.0]. Non-negative
/// IEEE-754 doubles order exactly as their raw bit patterns do, so verified
/// code uses the bits as an ordering key for the score.
#[verifier::external_body]
fn jaro_winkler_key(a: &str, b: &str) -> (r: u64)
    ensures
        r == jaro_winkler_bits(a@, b@),
{
    strsim::jaro_winkler(a, b).to_bits()
}

/// The candidates that begin with the partial input, in enumeration order,
/// each paired with its similarity key against the partial input.
pub open spec fn scored_matches(names: Seq<Seq<char>>, partial: Seq<char>) -> Seq<
    (Seq<char>, u64),
>
    decreases names.len(),
{
    if names.len() == 0 {
        Seq::empty()
    } else {
        let rest = scored_matches(names.drop_last(), partial);
        if partial.is_prefix_of(names.last()) {
            rest.push((names.last(), jaro_winkler_bits(names.last(), partial)))
        } else {
            rest
        }
    }
}

/// Stable insertion into a sequence sorted by descending key: the new entry
/// goes after every entry whose key is at least as large, so entries with
/// equal keys keep the order in which they were inserted.
pub open spec fn insert_desc(s: Seq<(Seq<char>, u64)>, x: (Seq<char>, u64)) -> Seq<
    (Seq<char>, u64),
>
    decreases s.len(),
{
    if s.len() == 0 {
        seq![x]
    } else if s[0].1 >= x.1 {
        seq![s[0]] + insert_desc(s.skip(1), x)
    } else {
        seq![x] + s
    }
}

/// Stable sort by descending key, inserting the entries in enumeration order.
pub open spec fn sort_desc(s: Seq<(Seq<char>, u64)>) -> Seq<(Seq<char>, u64)>
    decreases s.len(),
{
    if s.len() == 0 {
        Seq::empty()
    } else {
        insert_desc(sort_desc(s.drop_last()), s.last())
    }
}

/// The ranked suggestions for a partial command name: the registered names
/// that begin with it, ordered by descending similarity (ties keep their
/// enumeration order), capped at the five best.
pub open spec fn ranked(names: Seq<Seq<char>>, partial: Seq<char>) -> Seq<Seq<char>> {
    let sorted = sort_desc(scored_matches(names, partial));
    let capped = if sorted.len() <= 5 {
        sorted
    } else {
        sorted.take(5)
    };
    capped.map_values(|p: (Seq<char>, u64)| p.0)
}

proof fn lemma_insert_desc_len(s: Seq<(Seq<char>, u64)>, x: (Seq<char>, u64))
    ensures
        insert_desc(s, x).len() == s.len() + 1,
    decreases s.len(),
{
    if s.len() == 0 {
    } else if s[0].1 >= x.1 {
        lemma_insert_desc_len(s.skip(1), x);
    } else {
    }
}

proof fn lemma_sort_desc_len(s: Seq<(Seq<char>, u64)>)
    ensures
        sort_desc(s).len() == s.len(),
    decreases s.len(),
{
    if s.len() == 0 {
    } else {
        lemma_sort_desc_len(s.drop_last());
        lemma_insert_desc_len(sort_desc(s.drop_last()), s.last());
    }
}

proof fn lemma_insert_desc_split(s: Seq<(Seq<char>, u64)>, x: (Seq<char>, u64), j: int)
    requires
        0 <= j <= s.len(),
        forall|k: int| 0 <= k < j ==> (#[trigger] s[k]).1 >= x.1,
        j < s.len() ==> s[j].1 < x.1,
    ensures
        insert_desc(s, x) == s.take(j) + seq![x] + s.skip(j),
    decreases j,
{
    if j == 0 {
        if s.len() == 0 {
            assert(insert_desc(s, x) =~= s.take(0) + seq![x] + s.skip(0));
        } else {
            assert(insert_desc(s, x) =~= s.take(0) + seq![x] + s.skip(0));
        }
    } else {
        lemma_insert_desc_split(s.skip(1), x, j - 1);
        assert(s.skip(1).take(j - 1) =~= s.take(j).skip(1));
        assert(s.skip(1).skip(j - 1) =~= s.skip(j));
        assert(seq![s[0]] + (s.take(j).skip(1) + seq![x] + s.skip(j)) =~= s.take(j) + seq![x]
            + s.skip(j));
    }
}

/// The ranker is a pure function of its inputs: the same candidates against
/// the same partial input rank the same way, every time.
pub proof fn lemma_ranker_deterministic(
    names1: Seq<Seq<char>>,
    names2: Seq<Seq<char>>,
    partial1: Seq<char>,
    partial2: Seq<char>,
)
    requires
        names1 == names2,
        partial1 == partial2,
    ensures
        ranked(names1, partial1) == ranked(names2, partial2),
{
}

/// Whenever at least five candidates match the partial input, exactly five
/// suggestions come back; fewer matches all come back, in order.
pub proof fn lemma_ranker_cap(names: Seq<Seq<char>>, partial: Seq<char>)
    ensures
        ranked(names, partial).len() == vstd::math::min(
            5,
            scored_matches(names, partial).len() as int,
        ),
{
    lemma_sort_desc_len(scored_matches(names, partial));
}

/// The view of one scored candidate.
pub open spec fn pair_view(p: (String, u64)) -> (Seq<char>, u64) {
    (p.0@, p.1)
}

/// The views of a vector of scored candidates.
pub open spec fn pair_views(v: Seq<(String, u64)>) -> Seq<(Seq<char>, u64)> {
    v.map_values(|p: (String, u64)| pair_view(p))
}

/// The completion options for a partial command name: every registered name
/// the partial input is a prefix of, ranked by descending Jaro-Winkler
/// similarity to the input (ties keep registry order), five at most.
pub fn command_completion_options(at_command_names: &Vec<String>, q_cmd: &String) -> (r: Vec<
    String,
>)
    ensures
        views_of(r@) == ranked(views_of(at_command_names@), q_cmd@),
        r@.len() == vstd::math::min(
            5,
            scored_matches(views_of(at_command_names@), q_cmd@).len() as int,
        ),
{
    let ghost names_v = views_of(at_command_names@);
    let n = at_command_names.len();
    let mut scored: Vec<(String, u64)> = Vec::new();
    proof {
        assert(pair_views(scored@) =~= scored_matches(names_v.take(0), q_cmd@));
    }
    for i in 0..n
        invariant
            n == at_command_names.len(),
            names_v == views_of(at_command_names@),
            pair_views(scored@) == scored_matches(names_v.take(i as int), q_cmd@),
        decreases n - i,
    {
        let name = &at_command_names[i];
        let ghost old_scored = scored@;
        proof {
            assert(names_v[i as int] == at_command_names@[i as int]@);
        }
        if is_char_prefix(q_cmd, name) {
            let key = jaro_winkler_key(name.as_str(), q_cmd.as_str());
            scored.push((name.clone(), key));
            proof {
                assert(pair_views(scored@) =~= pair_views(old_scored).push(
                    (name@, jaro_winkler_bits(name@, q_cmd@)),
                ));
            }
        }
        proof {
            assert(names_v.take(i + 1).drop_last() =~= names_v.take(i as int));
            assert(names_v.take(i + 1).last() == names_v[i as int]);
        }
    }
    let ghost all_scored = scored_matches(names_v, q_cmd@);
    proof {
        assert(names_v.take(n as int) =~= names_v);
        assert(pair_views(scored@) == all_scored);
    }
    let mut sorted: Vec<(String, u64)> = Vec::new();
    loop
        invariant
            all_scored == scored_matches(names_v, q_cmd@),
            scored@.len() <= all_scored.len(),
            pair_views(scored@) == all_scored.skip(all_scored.len() - scored@.len()),
            pair_views(sorted@) == sort_desc(
                all_scored.take(all_scored.len() - scored@.len()),
            ),
        ensures
            pair_views(sorted@) == sort_desc(all_scored),
            scored@.len() == 0,
        decreases scored@.len(),
    {
        if scored.len() == 0 {
            proof {
                assert(all_scored.take(all_scored.len() as int) =~= all_scored);
            }
            break ;
        }
        let ghost p = all_scored.len() - scored@.len();
        let ghost old_rem = scored@;
        let x = scored.remove(0);
        proof {
            assert(pair_views(old_rem)[0] == pair_view(x));
            assert(pair_views(old_rem) == all_scored.skip(p));
            assert(all_scored.skip(p)[0] == all_scored[p]);
            assert(pair_view(x) == all_scored[p]);
            assert(scored@ =~= old_rem.skip(1));
            assert(pair_views(scored@) =~= pair_views(old_rem).skip(1));
            assert(pair_views(scored@) =~= all_scored.skip(
                all_scored.len() - scored@.len(),
            ));
        }
        let key = x.1;
        let mut j: usize = 0;
        let slen = sorted.len();
        while j < slen && sorted[j].1 >= key
            invariant
                slen == sorted.len(),
                j <= slen,
                forall|k: int| 0 <= k < j ==> (#[trigger] sorted@[k]).1 >= key,
            decreases slen - j,
        {
            j = j + 1;
        }
        let ghost old_sorted = sorted@;
        sorted.insert(j, x);
        proof {
            assert(forall|k: int|
                0 <= k < j ==> (#[trigger] pair_views(old_sorted)[k]).1 >= pair_view(x).1);
            assert(j < old_sorted.len() ==> pair_views(old_sorted)[j as int].1 < pair_view(
                x,
            ).1);
            lemma_insert_desc_split(pair_views(old_sorted), pair_view(x), j as int);
            assert(sorted@ =~= old_sorted.take(j as int) + seq![x] + old_sorted.skip(j as int));
            assert(pair_views(sorted@) =~= pair_views(old_sorted).take(j as int) + seq![
                pair_view(x),
            ] + pair_views(old_sorted).skip(j as int));
            assert(pair_views(sorted@) == insert_desc(pair_views(old_sorted), pair_view(x)));
            assert(all_scored.take(p + 1).drop_last() =~= all_scored.take(p));
            assert(all_scored.take(p + 1).last() == all_scored[p]);
            assert(pair_views(sorted@) == sort_desc(all_scored.take(p + 1)));
        }
    }
    if sorted.len() > 5 {
        sorted.truncate(5);
    }
    let ghost capped = if sort_desc(all_scored).len() <= 5 {
        sort_desc(all_scored)
    } else {
        sort_desc(all_scored).take(5)
    };
    proof {
        assert(pair_views(sorted@) == capped);
    }
    let mut r: Vec<String> = Vec::new();
    loop
        invariant
            r@.len() + sorted@.len() == capped.len(),
            forall|k: int| 0 <= k < r@.len() ==> (#[trigger] r@[k])@ == capped[k].0,
            forall|k: int|
                0 <= k < sorted@.len() ==> #[trigger] pair_views(sorted@)[k] == capped[r@.len()
                    + k],
        ensures
            r@.len() == capped.len(),
            forall|k: int| 0 <= k < r@.len() ==> (#[trigger] r@[k])@ == capped[k].0,
        decreases sorted@.len(),
    {
        if sorted.len() == 0 {
            break ;
        }
        let ghost old_rem = sorted@;
        let ghost done = r@.len();
        let x = sorted.remove(0);
        proof {
            assert(pair_views(old_rem)[0] == pair_view(x));
            assert(forall|k: int|
                0 <= k < sorted@.len() ==> #[trigger] pair_views(sorted@)[k] == pair_views(
                    old_rem,
                )[k + 1]);
        }
        r.push(x.0);
    }
    proof {
        lemma_sort_desc_len(all_scored);
        assert(views_of(r@) =~= ranked(names_v, q_cmd@));
    }
    r
}

} // verus!
