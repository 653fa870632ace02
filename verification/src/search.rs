//! The two search modes: keep the lines of a text that contain a query,
//! either exactly or after lowercasing both sides.

use vstd::prelude::*;

use crate::config::Config;
use crate::lines::split_into_lines;
use crate::lines::split_lines;
use crate::text::contains_substring;
use crate::text::contains_str;
use crate::text::lower_of;
use crate::text::lowercase;
use crate::text::lemma_contains_empty_query;
use crate::text::trim_spec;
use crate::text::trim_str;

verus! {

/// The lines among `ls`, in order, that contain `q` as an exact substring.
pub open spec fn matching_lines(q: Seq<char>, ls: Seq<Seq<char>>) -> Seq<Seq<char>>
    decreases ls.len(),
{
    if ls.len() == 0 {
        Seq::empty()
    } else {
        let rest = matching_lines(q, ls.drop_last());
        if contains_substring(ls.last(), q) {
            rest.push(ls.last())
        } else {
            rest
        }
    }
}

/// The lines among `ls` whose lowercase form contains the lowercase form
/// of `q`, in order, each trimmed of its surrounding whitespace.
pub open spec fn ci_matching_lines(q: Seq<char>, ls: Seq<Seq<char>>) -> Seq<Seq<char>>
    decreases ls.len(),
{
    if ls.len() == 0 {
        Seq::empty()
    } else {
        let rest = ci_matching_lines(q, ls.drop_last());
        if contains_substring(lower_of(ls.last()), lower_of(q)) {
            rest.push(trim_spec(ls.last()))
        } else {
            rest
        }
    }
}

/// Keeps, in order, every line of `contents` that contains `query` as an
/// exact substring; an empty query keeps every line.
pub fn search<'a>(query: &str, contents: &'a str) -> (r: Vec<&'a str>)
    ensures
        r.deep_view() == matching_lines(query@, split_lines(contents@)),
        query@.len() == 0 ==> r.deep_view() == split_lines(contents@),
{
    let ls = split_into_lines(contents);
    let mut results: Vec<&'a str> = Vec::new();
    let n = ls.len();
    let mut i: usize = 0;
    proof {
        assert(results.deep_view() =~= Seq::<Seq<char>>::empty());
        assert(ls.deep_view().subrange(0, 0) =~= Seq::<Seq<char>>::empty());
    }
    while i < n
        invariant
            n == ls.len(),
            i <= n,
            ls.deep_view() == split_lines(contents@),
            results.deep_view() == matching_lines(query@, ls.deep_view().subrange(0, i as int)),
        decreases n - i,
    {
        let ghost prev = results.deep_view();
        let line = ls[i];
        proof {
            assert(line@ == ls.deep_view()[i as int]);
        }
        if contains_str(line, query) {
            results.push(line);
            proof {
                assert(results.deep_view() =~= prev.push(line@));
            }
        }
        proof {
            let pre = ls.deep_view().subrange(0, i as int);
            let post = ls.deep_view().subrange(0, i + 1);
            assert(post.drop_last() =~= pre);
            assert(post.last() == line@);
        }
        i += 1;
    }
    proof {
        assert(ls.deep_view().subrange(0, n as int) =~= ls.deep_view());
        if query@.len() == 0 {
            lemma_empty_query_matches_all(query@, ls.deep_view());
        }
    }
    results
}

/// Keeps, in order, every line of `contents` whose lowercase form contains
/// the lowercase form of `query`, trimmed of its surrounding whitespace; an
/// empty query keeps every line.
pub fn search_case_insensetive<'a>(query: &str, contents: &'a str) -> (r: Vec<&'a str>)
    ensures
        r.deep_view() == ci_matching_lines(query@, split_lines(contents@)),
        query@.len() == 0 ==> r.deep_view() == split_lines(contents@).map_values(
            |l: Seq<char>| trim_spec(l),
        ),
{
    let lower_query = lowercase(query);
    let ls = split_into_lines(contents);
    let mut results: Vec<&'a str> = Vec::new();
    let n = ls.len();
    let mut i: usize = 0;
    proof {
        assert(results.deep_view() =~= Seq::<Seq<char>>::empty());
        assert(ls.deep_view().subrange(0, 0) =~= Seq::<Seq<char>>::empty());
    }
    while i < n
        invariant
            n == ls.len(),
            i <= n,
            ls.deep_view() == split_lines(contents@),
            lower_query@ == lower_of(query@),
            results.deep_view() == ci_matching_lines(query@, ls.deep_view().subrange(0, i as int)),
        decreases n - i,
    {
        let ghost prev = results.deep_view();
        let line = ls[i];
        proof {
            assert(line@ == ls.deep_view()[i as int]);
        }
        let lower_line = lowercase(line);
        if contains_str(lower_line.as_str(), lower_query.as_str()) {
            let trimmed = trim_str(line);
            results.push(trimmed);
            proof {
                assert(results.deep_view() =~= prev.push(trimmed@));
            }
        }
        proof {
            let pre = ls.deep_view().subrange(0, i as int);
            let post = ls.deep_view().subrange(0, i + 1);
            assert(post.drop_last() =~= pre);
            assert(post.last() == line@);
        }
        i += 1;
    }
    proof {
        assert(ls.deep_view().subrange(0, n as int) =~= ls.deep_view());
        if query@.len() == 0 {
            lemma_ci_all_when_lower_empty(query@, ls.deep_view());
        }
    }
    results
}

/// The results that one invocation reports: the matching lines of
/// `contents` under the configured query and case policy.
pub fn run_results<'a>(config: &Config, contents: &'a str) -> (r: Vec<&'a str>)
    ensures
        config.ignore_case ==> r.deep_view() == ci_matching_lines(
            config.query@,
            split_lines(contents@),
        ),
        !config.ignore_case ==> r.deep_view() == matching_lines(
            config.query@,
            split_lines(contents@),
        ),
{
    if config.ignore_case {
        search_case_insensetive(config.query.as_str(), contents)
    } else {
        search(config.query.as_str(), contents)
    }
}

/// Case-sensitive matching is the filter of the line sequence by substring
/// containment: it keeps exactly the lines that contain the query, in
/// their original order, repeated only as often as they occur.
pub proof fn lemma_matching_lines_is_filter(q: Seq<char>, ls: Seq<Seq<char>>)
    ensures
        matching_lines(q, ls) == ls.filter(|l: Seq<char>| contains_substring(l, q)),
    decreases ls.len(),
{
    reveal(Seq::filter);
    if ls.len() > 0 {
        lemma_matching_lines_is_filter(q, ls.drop_last());
    }
}

/// Case-insensitive matching keeps exactly the lines whose lowercase form
/// contains the lowercase form of the query, in their original order, each
/// trimmed of its surrounding whitespace.
pub proof fn lemma_ci_matching_lines_is_filter(q: Seq<char>, ls: Seq<Seq<char>>)
    ensures
        ci_matching_lines(q, ls) == ls.filter(
            |l: Seq<char>| contains_substring(lower_of(l), lower_of(q)),
        ).map_values(|l: Seq<char>| trim_spec(l)),
    decreases ls.len(),
{
    reveal(Seq::filter);
    if ls.len() == 0 {
        assert(ci_matching_lines(q, ls) =~= ls.filter(
            |l: Seq<char>| contains_substring(lower_of(l), lower_of(q)),
        ).map_values(|l: Seq<char>| trim_spec(l)));
    } else {
        lemma_ci_matching_lines_is_filter(q, ls.drop_last());
        assert(ci_matching_lines(q, ls) =~= ls.filter(
            |l: Seq<char>| contains_substring(lower_of(l), lower_of(q)),
        ).map_values(|l: Seq<char>| trim_spec(l)));
    }
}

/// Every line that case-sensitive matching returns contains the query as
/// an exact substring and is one of the given lines.
pub proof fn lemma_matching_lines_sound(q: Seq<char>, ls: Seq<Seq<char>>)
    ensures
        forall|i: int|
            0 <= i < matching_lines(q, ls).len() ==> contains_substring(
                #[trigger] matching_lines(q, ls)[i],
                q,
            ) && ls.contains(matching_lines(q, ls)[i]),
    decreases ls.len(),
{
    if ls.len() > 0 {
        lemma_matching_lines_sound(q, ls.drop_last());
        let out = matching_lines(q, ls);
        let rest = matching_lines(q, ls.drop_last());
        assert forall|i: int|
            0 <= i < out.len() implies contains_substring(out[i], q) && ls.contains(out[i]) by {
            if i < rest.len() {
                assert(out[i] == rest[i]);
                let j = choose|j: int|
                    0 <= j < ls.drop_last().len() && ls.drop_last()[j] == rest[i];
                assert(ls[j] == rest[i]);
            } else {
                assert(out[i] == ls.last());
                assert(ls[ls.len() - 1] == ls.last());
            }
        }
    }
}

/// Every line that contains the query appears among the results of
/// case-sensitive matching.
pub proof fn lemma_matching_lines_complete(q: Seq<char>, ls: Seq<Seq<char>>)
    ensures
        forall|j: int|
            0 <= j < ls.len() && contains_substring(#[trigger] ls[j], q) ==> matching_lines(
                q,
                ls,
            ).contains(ls[j]),
    decreases ls.len(),
{
    if ls.len() > 0 {
        lemma_matching_lines_complete(q, ls.drop_last());
        let out = matching_lines(q, ls);
        let rest = matching_lines(q, ls.drop_last());
        assert forall|j: int|
            0 <= j < ls.len() && contains_substring(ls[j], q) implies out.contains(ls[j]) by {
            if j < ls.len() - 1 {
                assert(ls.drop_last()[j] == ls[j]);
                assert(rest.contains(ls[j]));
                let i = choose|i: int| 0 <= i < rest.len() && rest[i] == ls[j];
                assert(out[i] == rest[i]);
            } else {
                assert(out[out.len() - 1] == ls.last());
            }
        }
    }
}

/// An empty query matches every line in case-sensitive mode.
pub proof fn lemma_empty_query_matches_all(q: Seq<char>, ls: Seq<Seq<char>>)
    requires
        q.len() == 0,
    ensures
        matching_lines(q, ls) == ls,
    decreases ls.len(),
{
    if ls.len() > 0 {
        lemma_empty_query_matches_all(q, ls.drop_last());
        lemma_contains_empty_query(ls.last(), q);
        assert(matching_lines(q, ls) =~= ls);
    }
}

/// A query whose lowercase form is empty matches every line in
/// case-insensitive mode; each kept line is trimmed.
proof fn lemma_ci_all_when_lower_empty(q: Seq<char>, ls: Seq<Seq<char>>)
    requires
        lower_of(q).len() == 0,
    ensures
        ci_matching_lines(q, ls) == ls.map_values(|l: Seq<char>| trim_spec(l)),
    decreases ls.len(),
{
    if ls.len() == 0 {
        assert(ci_matching_lines(q, ls) =~= ls.map_values(|l: Seq<char>| trim_spec(l)));
    } else {
        lemma_ci_all_when_lower_empty(q, ls.drop_last());
        lemma_contains_empty_query(lower_of(ls.last()), lower_of(q));
        assert(ci_matching_lines(q, ls) =~= ls.map_values(|l: Seq<char>| trim_spec(l)));
    }
}

} // verus!
