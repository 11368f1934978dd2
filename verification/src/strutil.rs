//! Whitespace trimming for captured subprocess output, specified over
//! character sequences.

use vstd::prelude::*;
use vstd::string::*;

verus! {

/// Whether `c` occurs in `s`.
pub open spec fn contains_char(s: Seq<char>, c: char) -> bool {
    exists|i: int| 0 <= i < s.len() && s[i] == c
}

/// The first position of `c` in `s`; `s.len()` if `c` does not occur.
pub open spec fn find_char(s: Seq<char>, c: char) -> int
    decreases s.len(),
{
    if s.len() == 0 {
        0
    } else if s[0] == c {
        0
    } else {
        1 + find_char(s.drop_first(), c)
    }
}

/// `find_char` finds the first occurrence, and stays within bounds exactly
/// when the character occurs.
pub proof fn lemma_find_char(s: Seq<char>, c: char)
    ensures
        contains_char(s, c) <==> find_char(s, c) < s.len(),
        0 <= find_char(s, c) <= s.len(),
        contains_char(s, c) ==> s[find_char(s, c)] == c,
        forall|j: int| 0 <= j < find_char(s, c) ==> s[j] != c,
    decreases s.len(),
{
    if s.len() == 0 {
    } else if s[0] == c {
    } else {
        lemma_find_char(s.drop_first(), c);
        assert forall|j: int| 0 <= j < find_char(s, c) implies s[j] != c by {
            if j > 0 {
                assert(s.drop_first()[j - 1] == s[j]);
            }
        }
        if contains_char(s, c) {
            let i = choose|i: int| 0 <= i < s.len() && s[i] == c;
            assert(s.drop_first()[i - 1] == s[i]);
            assert(contains_char(s.drop_first(), c));
        }
        if contains_char(s.drop_first(), c) {
            let i = choose|i: int| 0 <= i < s.drop_first().len() && s.drop_first()[i] == c;
            assert(s[i + 1] == s.drop_first()[i]);
            assert(contains_char(s, c));
        }
    }
}

/// A position that carries `c` with no earlier occurrence is the one
/// `find_char` returns.
pub proof fn lemma_find_char_at(s: Seq<char>, c: char, j: int)
    requires
        0 <= j < s.len(),
        s[j] == c,
        forall|t: int| 0 <= t < j ==> s[t] != c,
    ensures
        find_char(s, c) == j,
{
    lemma_find_char(s, c);
    assert(contains_char(s, c));
    let f = find_char(s, c);
    if f < j {
        assert(s[f] == c);
    }
}

/// An ASCII whitespace character, as found around a captured line of
/// subprocess output.
pub open spec fn is_ws(c: char) -> bool {
    c == ' ' || c == '\t' || c == '\r' || c == '\n'
}

/// `s` with leading whitespace removed.
pub open spec fn trim_start(s: Seq<char>) -> Seq<char>
    decreases s.len(),
{
    if s.len() > 0 && is_ws(s[0]) {
        trim_start(s.drop_first())
    } else {
        s
    }
}

/// `s` with trailing whitespace removed.
pub open spec fn trim_end(s: Seq<char>) -> Seq<char>
    decreases s.len(),
{
    if s.len() > 0 && is_ws(s.last()) {
        trim_end(s.drop_last())
    } else {
        s
    }
}

/// `s` with leading and trailing whitespace removed.
pub open spec fn trim_ws(s: Seq<char>) -> Seq<char> {
    trim_end(trim_start(s))
}

/// Dropping a run of leading whitespace that ends at the first non-blank
/// character is exactly `trim_start`.
proof fn lemma_trim_start_at(s: Seq<char>, k: int)
    requires
        0 <= k <= s.len(),
        forall|t: int| 0 <= t < k ==> is_ws(s[t]),
        k < s.len() ==> !is_ws(s[k]),
    ensures
        trim_start(s) == s.skip(k),
    decreases s.len(),
{
    if k == 0 {
        assert(s.skip(0) =~= s);
    } else {
        assert(is_ws(s[0]));
        lemma_trim_start_at(s.drop_first(), k - 1);
        assert(s.drop_first().skip(k - 1) =~= s.skip(k));
    }
}

/// Dropping a run of trailing whitespace that starts after the last
/// non-blank character is exactly `trim_end`.
proof fn lemma_trim_end_at(s: Seq<char>, m: int)
    requires
        0 <= m <= s.len(),
        forall|t: int| m <= t < s.len() ==> is_ws(s[t]),
        m > 0 ==> !is_ws(s[m - 1]),
    ensures
        trim_end(s) == s.take(m),
    decreases s.len(),
{
    if m == s.len() {
        if s.len() > 0 {
            assert(!is_ws(s.last()));
        }
        assert(s.take(m) =~= s);
    } else {
        assert(is_ws(s.last()));
        lemma_trim_end_at(s.drop_last(), m);
        assert(s.drop_last().take(m) =~= s.take(m));
    }
}

/// Whether `c` is ASCII whitespace.
fn is_ws_char(c: char) -> (b: bool)
    ensures
        b == is_ws(c),
{
    c == ' ' || c == '\t' || c == '\r' || c == '\n'
}

/// `s` with leading and trailing ASCII whitespace removed, as `trim_ws`
/// describes.
pub fn trim_str(s: &str) -> (r: String)
    ensures
        r@ == trim_ws(s@),
{
    let n = s.unicode_len();
    let mut start: usize = 0;
    while start < n && is_ws_char(s.get_char(start))
        invariant
            start <= n,
            n as nat == s@.len(),
            forall|t: int| 0 <= t < start ==> is_ws(s@[t]),
        decreases n - start,
    {
        start = start + 1;
    }
    let mut end: usize = n;
    while end > start && is_ws_char(s.get_char(end - 1))
        invariant
            start <= end <= n,
            n as nat == s@.len(),
            forall|t: int| end <= t < n ==> is_ws(s@[t]),
        decreases end,
    {
        end = end - 1;
    }
    let r = s.substring_char(start, end).to_owned();
    proof {
        lemma_trim_start_at(s@, start as int);
        let u = s@.skip(start as int);
        assert forall|t: int| end - start <= t < u.len() implies is_ws(u[t]) by {
            assert(u[t] == s@[t + start]);
        }
        if end > start {
            assert(u[end - start - 1] == s@[end - 1]);
        }
        lemma_trim_end_at(u, end - start);
        assert(r@ =~= u.take(end - start));
    }
    r
}

/// The segments of `s` between occurrences of `sep`, in order.  There is
/// always at least one segment; an empty input has one empty segment.
pub open spec fn split_on(s: Seq<char>, sep: char) -> Seq<Seq<char>>
    decreases s.len(),
    via split_on_decreases
{
    if !contains_char(s, sep) {
        seq![s]
    } else {
        let i = find_char(s, sep);
        seq![s.take(i)] + split_on(s.skip(i + 1), sep)
    }
}

#[via_fn]
proof fn split_on_decreases(s: Seq<char>, sep: char) {
    if contains_char(s, sep) {
        lemma_find_char(s, sep);
    }
}

/// A split always yields at least one segment.
pub proof fn lemma_split_on_len(s: Seq<char>, sep: char)
    ensures
        split_on(s, sep).len() >= 1,
    decreases s.len(),
{
    if contains_char(s, sep) {
        lemma_find_char(s, sep);
        lemma_split_on_len(s.skip(find_char(s, sep) + 1), sep);
    }
}

/// Relies on `String::push`: appends one character.
#[verifier::external_body]
pub fn push_char(s: &mut String, c: char)
    ensures
        final(s)@ == old(s)@.push(c),
{
    s.push(c);
}

/// Splits `s` at every occurrence of `sep`, as `split_on` describes.
pub fn split_str(s: &str, sep: char) -> (r: Vec<String>)
    ensures
        r.deep_view() == split_on(s@, sep),
{
    let n = s.unicode_len();
    let mut r: Vec<String> = Vec::new();
    let mut seg_start: usize = 0;
    let mut i: usize = 0;
    proof {
        assert(s@.skip(0) =~= s@);
        assert(r.deep_view() =~= Seq::<Seq<char>>::empty());
    }
    while i < n
        invariant
            seg_start <= i <= n,
            n as nat == s@.len(),
            forall|t: int| seg_start <= t < i ==> s@[t] != sep,
            split_on(s@, sep) == r.deep_view() + split_on(s@.skip(seg_start as int), sep),
        decreases n - i,
    {
        if s.get_char(i) == sep {
            let ghost u = s@.skip(seg_start as int);
            let ghost rel = i - seg_start;
            let ghost before = r.deep_view();
            let seg = s.substring_char(seg_start, i).to_owned();
            proof {
                assert(u[rel as int] == s@[i as int]);
                assert forall|t: int| 0 <= t < rel implies u[t] != sep by {
                    assert(u[t] == s@[t + seg_start]);
                }
                lemma_find_char_at(u, sep, rel as int);
                assert(contains_char(u, sep));
                assert(split_on(u, sep) == seq![u.take(rel as int)] + split_on(
                    u.skip(rel + 1),
                    sep,
                ));
                assert(seg@ =~= u.take(rel as int));
                assert(u.skip(rel + 1) =~= s@.skip(i + 1));
            }
            r.push(seg);
            proof {
                assert(r.deep_view() =~= before.push(u.take(rel as int)));
                assert(before + split_on(u, sep) =~= r.deep_view() + split_on(
                    s@.skip(i + 1),
                    sep,
                ));
            }
            seg_start = i + 1;
        }
        i = i + 1;
    }
    let ghost u = s@.skip(seg_start as int);
    let ghost before = r.deep_view();
    let seg = s.substring_char(seg_start, n).to_owned();
    proof {
        assert(!contains_char(u, sep)) by {
            if contains_char(u, sep) {
                let t = choose|t: int| 0 <= t < u.len() && u[t] == sep;
                assert(u[t] == s@[t + seg_start]);
            }
        }
        assert(split_on(u, sep) == seq![u]);
        assert(seg@ =~= u);
    }
    r.push(seg);
    proof {
        assert(r.deep_view() =~= before.push(u));
        assert(before + seq![u] =~= r.deep_view());
    }
    r
}

} // verus!
