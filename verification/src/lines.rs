//! Splitting a text into lines.
//!
//! Lines end at `'\n'`; a `'\r'` immediately before a `'\n'` belongs to the
//! line break and is dropped.  A final line break is optional: a text that
//! ends with one yields the same lines as the same text without it.

use vstd::prelude::*;

verus! {

/// The position of the first `'\n'` in `s`, or `s.len()` when there is none.
pub open spec fn first_newline(s: Seq<char>) -> nat
    decreases s.len(),
{
    if s.len() == 0 {
        0
    } else if s[0] == '\n' {
        0
    } else {
        1 + first_newline(s.drop_first())
    }
}

/// `first_newline` never points past the end of `s`.
pub proof fn lemma_first_newline_le(s: Seq<char>)
    ensures
        first_newline(s) <= s.len(),
    decreases s.len(),
{
    if s.len() > 0 && s[0] != '\n' {
        lemma_first_newline_le(s.drop_first());
    }
}

/// `first_newline(s)` is the position of a `'\n'` with none before it.
proof fn lemma_first_newline_at(s: Seq<char>, j: int)
    requires
        0 <= j <= s.len(),
        forall|k: int| 0 <= k < j ==> s[k] != '\n',
        j < s.len() ==> s[j] == '\n',
    ensures
        first_newline(s) == j,
    decreases j,
{
    if j > 0 {
        lemma_first_newline_at(s.drop_first(), j - 1);
    }
}

/// `s` without a trailing `'\r'`, if it has one.
pub open spec fn strip_carriage_return(s: Seq<char>) -> Seq<char> {
    if s.len() > 0 && s[s.len() - 1] == '\r' {
        s.drop_last()
    } else {
        s
    }
}

/// The lines of `s`, in order: the text before each `'\n'` (without a
/// trailing `'\r'`), and whatever follows the last `'\n'`, unless it is
/// empty.
pub open spec fn split_lines(s: Seq<char>) -> Seq<Seq<char>>
    decreases s.len(),
    via split_lines_decreases
{
    if s.len() == 0 {
        Seq::empty()
    } else {
        let i = first_newline(s) as int;
        if i == s.len() {
            seq![s]
        } else {
            seq![strip_carriage_return(s.subrange(0, i))] + split_lines(
                s.subrange(i + 1, s.len() as int),
            )
        }
    }
}

#[via_fn]
proof fn split_lines_decreases(s: Seq<char>) {
    lemma_first_newline_le(s);
}

/// Finds the position of the first `'\n'` in `s` at or after `from`, or
/// the length of `s` when there is none.
fn find_newline(s: &str, from: usize) -> (j: usize)
    requires
        from <= s@.len(),
    ensures
        from <= j <= s@.len(),
        forall|k: int| from <= k < j ==> s@[k] != '\n',
        j < s@.len() ==> s@[j as int] == '\n',
{
    let n = s.unicode_len();
    let mut j: usize = from;
    while j < n
        invariant
            from <= j <= n,
            n == s@.len(),
            forall|k: int| from <= k < j ==> s@[k] != '\n',
        decreases n - j,
    {
        if s.get_char(j) == '\n' {
            return j;
        }
        j += 1;
    }
    j
}

/// Splits `s` into its lines, in order.
pub fn split_into_lines<'a>(s: &'a str) -> (r: Vec<&'a str>)
    ensures
        r.deep_view() == split_lines(s@),
{
    let n = s.unicode_len();
    let mut result: Vec<&'a str> = Vec::new();
    let mut pos: usize = 0;
    proof {
        assert(result.deep_view() =~= Seq::<Seq<char>>::empty());
        assert(s@.subrange(0, n as int) =~= s@);
        assert(Seq::<Seq<char>>::empty() + split_lines(s@) =~= split_lines(s@));
    }
    while pos < n
        invariant
            pos <= n,
            n == s@.len(),
            split_lines(s@) == result.deep_view() + split_lines(
                s@.subrange(pos as int, n as int),
            ),
        decreases n - pos,
    {
        let ghost prev = result.deep_view();
        let ghost sub = s@.subrange(pos as int, n as int);
        let j = find_newline(s, pos);
        proof {
            assert forall|k: int| 0 <= k < j - pos implies sub[k] != '\n' by {
                assert(sub[k] == s@[pos + k]);
            }
            lemma_first_newline_at(sub, j - pos);
        }
        if j < n {
            let line = if j > pos && s.get_char(j - 1) == '\r' {
                s.substring_char(pos, j - 1)
            } else {
                s.substring_char(pos, j)
            };
            result.push(line);
            proof {
                assert(sub.subrange(0, j - pos) =~= s@.subrange(pos as int, j as int));
                assert(sub.subrange(j - pos + 1, sub.len() as int) =~= s@.subrange(
                    j + 1,
                    n as int,
                ));
                if j > pos && s@[j - 1] == '\r' {
                    assert(strip_carriage_return(sub.subrange(0, j - pos)) =~= s@.subrange(
                        pos as int,
                        j - 1,
                    ));
                } else {
                    assert(strip_carriage_return(sub.subrange(0, j - pos)) =~= s@.subrange(
                        pos as int,
                        j as int,
                    ));
                }
                assert(result.deep_view() =~= prev.push(line@));
                assert(prev.push(line@) + split_lines(s@.subrange(j + 1, n as int)) =~= prev + (
                seq![line@] + split_lines(s@.subrange(j + 1, n as int))));
            }
            pos = j + 1;
        } else {
            let line = s.substring_char(pos, n);
            result.push(line);
            proof {
                assert(line@ =~= sub);
                assert(split_lines(sub) =~= seq![sub]);
                assert(result.deep_view() =~= prev.push(line@));
                assert(prev.push(line@) =~= prev + seq![line@]);
                assert(split_lines(s@.subrange(n as int, n as int)) =~= Seq::<Seq<char>>::empty());
                assert(prev + seq![line@] + Seq::<Seq<char>>::empty() =~= prev + seq![line@]);
            }
            pos = n;
        }
    }
    proof {
        assert(split_lines(s@.subrange(n as int, n as int)) =~= Seq::<Seq<char>>::empty());
        assert(result.deep_view() + Seq::<Seq<char>>::empty() =~= result.deep_view());
    }
    result
}

} // verus!
