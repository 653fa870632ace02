//! Characters and substrings: whitespace classification, substring
//! containment, and trimming of surrounding whitespace.

use vstd::prelude::*;

verus! {

/// A character with the Unicode `White_Space` property; these are exactly
/// the characters that surrounding-whitespace trimming removes.
pub open spec fn is_space(c: char) -> bool {
    let u = c as u32;
    (0x09 <= u && u <= 0x0d) || u == 0x20 || u == 0x85 || u == 0xa0 || u == 0x1680 || (0x2000
        <= u && u <= 0x200a) || u == 0x2028 || u == 0x2029 || u == 0x202f || u == 0x205f || u
        == 0x3000
}

/// Decides `is_space` for a single character.
pub fn is_whitespace_char(c: char) -> (r: bool)
    ensures
        r == is_space(c),
{
    let u = c as u32;
    (0x09 <= u && u <= 0x0d) || u == 0x20 || u == 0x85 || u == 0xa0 || u == 0x1680 || (0x2000
        <= u && u <= 0x200a) || u == 0x2028 || u == 0x2029 || u == 0x202f || u == 0x205f || u
        == 0x3000
}

/// The query `q` occurs in `t` starting at position `i`.
pub open spec fn matches_at(t: Seq<char>, q: Seq<char>, i: int) -> bool {
    0 <= i && i + q.len() <= t.len() && t.subrange(i, i + q.len()) == q
}

/// The query `q` occurs somewhere in `t` as a contiguous substring.
pub open spec fn contains_substring(t: Seq<char>, q: Seq<char>) -> bool {
    exists|i: int| matches_at(t, q, i)
}

/// An empty query occurs in every text.
pub proof fn lemma_contains_empty_query(t: Seq<char>, q: Seq<char>)
    requires
        q.len() == 0,
    ensures
        contains_substring(t, q),
{
    assert(t.subrange(0, 0) =~= q);
    assert(matches_at(t, q, 0));
}

/// Decides whether `q` occurs in `t` starting at position `i`.
fn matches_from(t: &str, q: &str, i: usize) -> (r: bool)
    requires
        i + q@.len() <= t@.len(),
    ensures
        r == matches_at(t@, q@, i as int),
{
    let tn = t.unicode_len();
    let qn = q.unicode_len();
    let mut j: usize = 0;
    while j < qn
        invariant
            qn == q@.len(),
            tn == t@.len(),
            i + qn <= tn,
            j <= qn,
            forall|k: int| 0 <= k < j ==> t@[i + k] == q@[k],
        decreases qn - j,
    {
        let tc = t.get_char(i + j);
        let qc = q.get_char(j);
        if tc != qc {
            proof {
                if matches_at(t@, q@, i as int) {
                    assert(t@.subrange(i as int, i + q@.len())[j as int] == t@[i + j]);
                }
            }
            return false;
        }
        j += 1;
    }
    proof {
        assert(t@.subrange(i as int, i + q@.len()) =~= q@);
    }
    true
}

/// Decides whether `q` occurs anywhere in `t` as a contiguous substring.
pub fn contains_str(t: &str, q: &str) -> (r: bool)
    ensures
        r == contains_substring(t@, q@),
{
    let tn = t.unicode_len();
    let qn = q.unicode_len();
    if qn > tn {
        proof {
            assert(forall|i: int| !matches_at(t@, q@, i));
        }
        return false;
    }
    let mut i: usize = 0;
    loop
        invariant
            qn == q@.len(),
            tn == t@.len(),
            qn <= tn,
            i <= tn - qn,
            forall|k: int| 0 <= k < i ==> !matches_at(t@, q@, k),
        ensures
            forall|k: int| 0 <= k <= tn - qn ==> !matches_at(t@, q@, k),
        decreases tn - qn - i,
    {
        if matches_from(t, q, i) {
            return true;
        }
        if i == tn - qn {
            break;
        }
        i += 1;
    }
    proof {
        assert(forall|k: int| matches_at(t@, q@, k) ==> 0 <= k <= tn - qn);
    }
    false
}

/// `s` with its leading run of whitespace removed.
pub open spec fn trim_start_spec(s: Seq<char>) -> Seq<char>
    decreases s.len(),
{
    if s.len() > 0 && is_space(s[0]) {
        trim_start_spec(s.drop_first())
    } else {
        s
    }
}

/// `s` with its trailing run of whitespace removed.
pub open spec fn trim_end_spec(s: Seq<char>) -> Seq<char>
    decreases s.len(),
{
    if s.len() > 0 && is_space(s[s.len() - 1]) {
        trim_end_spec(s.drop_last())
    } else {
        s
    }
}

/// `s` with both its leading and its trailing whitespace removed.
pub open spec fn trim_spec(s: Seq<char>) -> Seq<char> {
    trim_end_spec(trim_start_spec(s))
}

/// `trim_start_spec` keeps exactly the part of `s` from the first
/// non-whitespace character on.
proof fn lemma_trim_start_at(s: Seq<char>, i: int)
    requires
        0 <= i <= s.len(),
        forall|k: int| 0 <= k < i ==> is_space(s[k]),
        i < s.len() ==> !is_space(s[i]),
    ensures
        trim_start_spec(s) == s.subrange(i, s.len() as int),
    decreases i,
{
    if i == 0 {
        assert(s.subrange(0, s.len() as int) =~= s);
    } else {
        lemma_trim_start_at(s.drop_first(), i - 1);
        assert(s.drop_first().subrange(i - 1, s.drop_first().len() as int) =~= s.subrange(
            i,
            s.len() as int,
        ));
    }
}

/// `trim_end_spec` keeps exactly the part of `s` up to the last
/// non-whitespace character.
proof fn lemma_trim_end_at(s: Seq<char>, e: int)
    requires
        0 <= e <= s.len(),
        forall|k: int| e <= k < s.len() ==> is_space(s[k]),
        e > 0 ==> !is_space(s[e - 1]),
    ensures
        trim_end_spec(s) == s.subrange(0, e),
    decreases s.len() - e,
{
    if e == s.len() {
        assert(s.subrange(0, e) =~= s);
    } else {
        lemma_trim_end_at(s.drop_last(), e);
        assert(s.drop_last().subrange(0, e) =~= s.subrange(0, e));
    }
}

/// Removes the surrounding whitespace of `s`.
pub fn trim_str<'a>(s: &'a str) -> (r: &'a str)
    ensures
        r@ == trim_spec(s@),
{
    let n = s.unicode_len();
    let mut b: usize = 0;
    while b < n && is_whitespace_char(s.get_char(b))
        invariant
            b <= n,
            n == s@.len(),
            forall|k: int| 0 <= k < b ==> is_space(s@[k]),
        decreases n - b,
    {
        b += 1;
    }
    proof {
        lemma_trim_start_at(s@, b as int);
    }
    let mut e: usize = n;
    while e > b && is_whitespace_char(s.get_char(e - 1))
        invariant
            b <= e <= n,
            n == s@.len(),
            forall|k: int| e <= k < n ==> is_space(s@[k]),
        decreases e,
    {
        e -= 1;
    }
    proof {
        let t = s@.subrange(b as int, n as int);
        lemma_trim_end_at(t, e - b);
        assert(t.subrange(0, e - b) =~= s@.subrange(b as int, e as int));
    }
    s.substring_char(b, e)
}

/// The lowercase form of `s`, as `str::to_lowercase` computes it; the form
/// depends on the characters of `s` alone.
pub uninterp spec fn lower_of(s: Seq<char>) -> Seq<char>;

/// Relies on `str::to_lowercase`: the result is a function of the input
/// characters alone, and an empty input gives an empty result.
#[verifier::external_body]
pub(crate) fn lowercase(s: &str) -> (r: String)
    ensures
        r@ == lower_of(s@),
        s@.len() == 0 ==> r@.len() == 0,
{
    s.to_lowercase()
}

} // verus!
