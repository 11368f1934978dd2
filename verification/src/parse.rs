//! Parsing of an environment dump: the standard output of a shell that ran
//! the toolchain setup script and then listed every variable, one
//! `NAME=VALUE` line at a time.
//!
//! A dump is split into lines at `'\n'`; a trailing `'\r'` on a line is
//! dropped.  A line is an assignment when it contains `'='`; it is split at
//! the first `'='` only, so a value may itself contain `'='`.  Lines without
//! `'='` (banners, blank lines) are skipped, and a later assignment to a key
//! already seen overwrites the earlier value while the key keeps its first
//! position.

use crate::envmap::{
    env_entries, env_map_insert, env_map_new, has_key, keys_unique, lemma_upsert_keys_unique,
    upsert,
};
use crate::strutil::{contains_char, find_char, lemma_find_char, lemma_find_char_at};
use indexmap::IndexMap;
use vstd::prelude::*;
use vstd::string::*;

verus! {

/// A line with its trailing carriage return, if any, removed.
pub open spec fn strip_cr(line: Seq<char>) -> Seq<char> {
    if line.len() > 0 && line.last() == '\r' {
        line.drop_last()
    } else {
        line
    }
}

/// The assignment a dump line denotes: the part before the first `'='` and
/// the part after it, or nothing for a line without `'='`.
pub open spec fn parse_line(line: Seq<char>) -> Option<(Seq<char>, Seq<char>)> {
    let l = strip_cr(line);
    if contains_char(l, '=') {
        let i = find_char(l, '=');
        Some((l.take(i), l.skip(i + 1)))
    } else {
        None
    }
}

/// The segments of `s` between occurrences of `'\n'`, in order.  There is
/// always at least one segment; an empty dump has one empty segment.
pub open spec fn split_lines(s: Seq<char>) -> Seq<Seq<char>>
    decreases s.len(),
    via split_lines_decreases
{
    if !contains_char(s, '\n') {
        seq![s]
    } else {
        let i = find_char(s, '\n');
        seq![s.take(i)] + split_lines(s.skip(i + 1))
    }
}

#[via_fn]
proof fn split_lines_decreases(s: Seq<char>) {
    if contains_char(s, '\n') {
        lemma_find_char(s, '\n');
    }
}

/// One dump line applied to an entry sequence: an assignment is upserted, any
/// other line changes nothing.
pub open spec fn apply_line(
    entries: Seq<(Seq<char>, Seq<char>)>,
    line: Seq<char>,
) -> Seq<(Seq<char>, Seq<char>)> {
    match parse_line(line) {
        Some(kv) => upsert(entries, kv.0, kv.1),
        None => entries,
    }
}

/// The dump lines applied in order, starting from `entries`.
pub open spec fn fold_lines(
    entries: Seq<(Seq<char>, Seq<char>)>,
    lines: Seq<Seq<char>>,
) -> Seq<(Seq<char>, Seq<char>)>
    decreases lines.len(),
{
    if lines.len() == 0 {
        entries
    } else {
        fold_lines(apply_line(entries, lines.first()), lines.drop_first())
    }
}

/// The ordered key/value pairs a whole dump denotes.
pub open spec fn parse_dump(s: Seq<char>) -> Seq<(Seq<char>, Seq<char>)> {
    fold_lines(Seq::empty(), split_lines(s))
}

/// Applying lines never introduces a duplicate key.
pub proof fn lemma_fold_lines_keys_unique(
    entries: Seq<(Seq<char>, Seq<char>)>,
    lines: Seq<Seq<char>>,
)
    requires
        keys_unique(entries),
    ensures
        keys_unique(fold_lines(entries, lines)),
    decreases lines.len(),
{
    if lines.len() > 0 {
        match parse_line(lines.first()) {
            Some(kv) => {
                lemma_upsert_keys_unique(entries, kv.0, kv.1);
            },
            None => {},
        }
        lemma_fold_lines_keys_unique(apply_line(entries, lines.first()), lines.drop_first());
    }
}

/// No key of a parsed dump occurs twice.
pub proof fn lemma_parse_dump_keys_unique(s: Seq<char>)
    ensures
        keys_unique(parse_dump(s)),
{
    lemma_fold_lines_keys_unique(Seq::empty(), split_lines(s));
}

/// The key/value pair an assignment line denotes.
pub open spec fn line_pair(line: Seq<char>) -> (Seq<char>, Seq<char>) {
    parse_line(line)->0
}

/// The key an assignment line denotes.
pub open spec fn line_key(line: Seq<char>) -> Seq<char> {
    line_pair(line).0
}

/// Folding lines whose keys are fresh and pairwise distinct appends their
/// pairs in order.
proof fn lemma_fold_lines_all_new(acc: Seq<(Seq<char>, Seq<char>)>, lines: Seq<Seq<char>>)
    requires
        forall|i: int| 0 <= i < lines.len() ==> parse_line(#[trigger] lines[i]) is Some,
        forall|i: int, j: int|
            0 <= i < j < lines.len() ==> line_key(lines[i]) != line_key(lines[j]),
        forall|i: int| 0 <= i < lines.len() ==> !has_key(acc, line_key(#[trigger] lines[i])),
    ensures
        fold_lines(acc, lines) == acc + Seq::new(lines.len(), |i: int| line_pair(lines[i])),
    decreases lines.len(),
{
    if lines.len() == 0 {
        assert(acc + Seq::new(0, |i: int| line_pair(lines[i])) =~= acc);
    } else {
        assert(parse_line(lines[0]) is Some);
        let kv = line_pair(lines.first());
        assert(!has_key(acc, kv.0));
        let acc1 = acc.push(kv);
        assert(apply_line(acc, lines.first()) == acc1);
        let rest = lines.drop_first();
        assert forall|i: int| 0 <= i < rest.len() implies !has_key(
            acc1,
            line_key(#[trigger] rest[i]),
        ) by {
            assert(rest[i] == lines[i + 1]);
            let k = line_key(rest[i]);
            assert(k != kv.0);
            if has_key(acc1, k) {
                let t = choose|t: int| 0 <= t < acc1.len() && acc1[t].0 == k;
                assert(t < acc.len());
                assert(has_key(acc, k));
            }
        }
        assert forall|i: int, j: int| 0 <= i < j < rest.len() implies line_key(rest[i])
            != line_key(rest[j]) by {
            assert(rest[i] == lines[i + 1]);
            assert(rest[j] == lines[j + 1]);
        }
        assert forall|i: int| 0 <= i < rest.len() implies parse_line(
            #[trigger] rest[i],
        ) is Some by {
            assert(rest[i] == lines[i + 1]);
        }
        lemma_fold_lines_all_new(acc1, rest);
        assert(acc1 + Seq::new(rest.len(), |i: int| line_pair(rest[i])) =~= acc + Seq::new(
            lines.len(),
            |i: int| line_pair(lines[i]),
        ));
    }
}

/// Parsing is total and exact on a well-formed dump: when every line is an
/// assignment and no two lines share a key, the result holds exactly those
/// pairs, in first-seen order.
pub proof fn lemma_parse_distinct_keys(lines: Seq<Seq<char>>)
    requires
        forall|i: int| 0 <= i < lines.len() ==> parse_line(#[trigger] lines[i]) is Some,
        forall|i: int, j: int|
            0 <= i < j < lines.len() ==> line_key(lines[i]) != line_key(lines[j]),
    ensures
        fold_lines(Seq::empty(), lines) == Seq::new(lines.len(), |i: int| line_pair(lines[i])),
{
    lemma_fold_lines_all_new(Seq::empty(), lines);
    assert(Seq::empty() + Seq::new(lines.len(), |i: int| line_pair(lines[i])) =~= Seq::new(
        lines.len(),
        |i: int| line_pair(lines[i]),
    ));
}

/// A line that is no assignment is skipped: dropping it from the dump leaves
/// the parse of every other line unchanged.
pub proof fn lemma_unparsable_line_skipped(
    acc: Seq<(Seq<char>, Seq<char>)>,
    lines: Seq<Seq<char>>,
    i: int,
)
    requires
        0 <= i < lines.len(),
        parse_line(lines[i]) is None,
    ensures
        fold_lines(acc, lines) == fold_lines(acc, lines.remove(i)),
    decreases lines.len(),
{
    if i == 0 {
        assert(apply_line(acc, lines.first()) == acc);
        assert(lines.remove(0) =~= lines.drop_first());
    } else {
        let acc1 = apply_line(acc, lines.first());
        assert(lines.drop_first()[i - 1] == lines[i]);
        lemma_unparsable_line_skipped(acc1, lines.drop_first(), i - 1);
        assert(lines.remove(i).first() == lines.first());
        assert(lines.remove(i).drop_first() =~= lines.drop_first().remove(i - 1));
        assert(fold_lines(acc, lines.remove(i)) == fold_lines(
            acc1,
            lines.drop_first().remove(i - 1),
        ));
    }
}

/// The position of the first `'='` among the first `limit` characters of
/// `line`, if there is one.
fn find_first_eq(line: &str, limit: usize) -> (r: Option<usize>)
    requires
        limit as nat <= line@.len(),
    ensures
        match r {
            Some(j) => j < limit && line@[j as int] == '=' && (forall|t: int|
                0 <= t < j ==> line@[t] != '='),
            None => forall|t: int| 0 <= t < limit ==> line@[t] != '=',
        },
{
    let mut j: usize = 0;
    while j < limit
        invariant
            j <= limit,
            limit as nat <= line@.len(),
            forall|t: int| 0 <= t < j ==> line@[t] != '=',
        decreases limit - j,
    {
        if line.get_char(j) == '=' {
            return Some(j);
        }
        j = j + 1;
    }
    None
}

/// Applies the dump line `dump@.subrange(start as int, end as int)` to the
/// map, as `apply_line` describes.
fn apply_dump_line(m: &mut IndexMap<String, String>, dump: &str, start: usize, end: usize)
    requires
        start <= end,
        end as nat <= dump@.len(),
    ensures
        env_entries(*final(m)) == apply_line(
            env_entries(*old(m)),
            dump@.subrange(start as int, end as int),
        ),
{
    let line = dump.substring_char(start, end);
    let ghost l = line@;
    let n = end - start;
    proof {
        assert(l.len() == n);
    }
    let stripped_end: usize = if n > 0 && line.get_char(n - 1) == '\r' {
        n - 1
    } else {
        n
    };
    let ghost stripped = strip_cr(l);
    proof {
        if n > 0 && l[n - 1] == '\r' {
            assert(stripped =~= l.subrange(0, stripped_end as int));
        } else {
            assert(stripped =~= l.subrange(0, stripped_end as int));
        }
        assert(stripped.len() == stripped_end);
    }
    match find_first_eq(line, stripped_end) {
        Some(j) => {
            let key = line.substring_char(0, j).to_owned();
            let value = line.substring_char(j + 1, stripped_end).to_owned();
            proof {
                assert(stripped[j as int] == l[j as int]);
                assert forall|t: int| 0 <= t < j implies stripped[t] != '=' by {
                    assert(stripped[t] == l[t]);
                }
                lemma_find_char_at(stripped, '=', j as int);
                assert(contains_char(stripped, '='));
                assert(key@ =~= stripped.take(j as int));
                assert(value@ =~= stripped.skip(j + 1));
                assert(parse_line(l) == Some((key@, value@)));
            }
            env_map_insert(m, key, value);
        },
        None => {
            proof {
                assert(!contains_char(stripped, '=')) by {
                    if contains_char(stripped, '=') {
                        let t = choose|t: int|
                            0 <= t < stripped.len() && stripped[t] == '=';
                        assert(stripped[t] == l[t]);
                    }
                }
                assert(parse_line(l) is None);
            }
        },
    }
}

/// Parses a whole environment dump into an ordered map, exactly as
/// `parse_dump` describes: split at `'\n'`, strip a trailing `'\r'` per
/// line, skip lines without `'='`, split the rest at the first `'='`, and
/// let a later assignment to a key overwrite the earlier one in place.
pub fn parse_env_dump(dump: &str) -> (m: IndexMap<String, String>)
    ensures
        env_entries(m) == parse_dump(dump@),
        keys_unique(env_entries(m)),
{
    let n = dump.unicode_len();
    let mut m = env_map_new();
    let mut line_start: usize = 0;
    let mut i: usize = 0;
    proof {
        assert(dump@.skip(0) =~= dump@);
    }
    while i < n
        invariant
            line_start <= i <= n,
            n as nat == dump@.len(),
            forall|t: int| line_start <= t < i ==> dump@[t] != '\n',
            fold_lines(env_entries(m), split_lines(dump@.skip(line_start as int)))
                == parse_dump(dump@),
        decreases n - i,
    {
        if dump.get_char(i) == '\n' {
            let ghost u = dump@.skip(line_start as int);
            let ghost rel = i - line_start;
            let ghost acc = env_entries(m);
            proof {
                assert(u[rel as int] == dump@[i as int]);
                assert forall|t: int| 0 <= t < rel implies u[t] != '\n' by {
                    assert(u[t] == dump@[t + line_start]);
                }
                lemma_find_char_at(u, '\n', rel as int);
                assert(contains_char(u, '\n'));
                assert(split_lines(u) == seq![u.take(rel as int)] + split_lines(
                    u.skip(rel + 1),
                ));
                let lines = seq![u.take(rel as int)] + split_lines(u.skip(rel + 1));
                assert(lines.first() == u.take(rel as int));
                assert(lines.drop_first() =~= split_lines(u.skip(rel + 1)));
                assert(dump@.subrange(line_start as int, i as int) =~= u.take(rel as int));
                assert(u.skip(rel + 1) =~= dump@.skip(i + 1));
            }
            apply_dump_line(&mut m, dump, line_start, i);
            proof {
                assert(env_entries(m) == apply_line(acc, u.take(rel as int)));
                assert(fold_lines(env_entries(m), split_lines(dump@.skip(i + 1)))
                    == parse_dump(dump@));
            }
            line_start = i + 1;
        }
        i = i + 1;
    }
    let ghost u = dump@.skip(line_start as int);
    let ghost acc = env_entries(m);
    proof {
        assert(!contains_char(u, '\n')) by {
            if contains_char(u, '\n') {
                let t = choose|t: int| 0 <= t < u.len() && u[t] == '\n';
                assert(u[t] == dump@[t + line_start]);
            }
        }
        assert(split_lines(u) == seq![u]);
        assert(seq![u].first() == u);
        assert(seq![u].drop_first() =~= Seq::<Seq<char>>::empty());
        assert(dump@.subrange(line_start as int, n as int) =~= u);
    }
    apply_dump_line(&mut m, dump, line_start, n);
    proof {
        assert(fold_lines(apply_line(acc, u), Seq::<Seq<char>>::empty()) == apply_line(acc, u));
        assert(env_entries(m) == parse_dump(dump@));
        lemma_parse_dump_keys_unique(dump@);
    }
    m
}

} // verus!
