//! Respelling of Windows-style paths for a Unix shell, used when the
//! extracted environment is re-exported as shell assignments.
//!
//! A path is split at its separators (either slash); a leading drive
//! designator `X:` becomes `/x`; empty segments — the root, repeated
//! separators — vanish; spaces inside a segment are escaped with a
//! backslash; the segments are rejoined with `/`.  A path list splits at
//! `;`, each entry is respelled, and the entries are rejoined with `:`.

use crate::strutil::{lemma_split_on_len, push_char, split_on, split_str};
use vstd::prelude::*;
use vstd::string::*;

verus! {

/// An ASCII letter, as a drive designator allows.
pub open spec fn is_ascii_letter(c: char) -> bool {
    ('A' <= c && c <= 'Z') || ('a' <= c && c <= 'z')
}

/// An upper-case ASCII letter mapped to lower case; any other character
/// unchanged.
pub open spec fn lower_char(c: char) -> char {
    if 'A' <= c && c <= 'Z' {
        ((c as u32) + 32) as char
    } else {
        c
    }
}

/// Relies on `char::to_ascii_lowercase`: ASCII letters `'A'` to `'Z'` map
/// to `'a'` to `'z'`, every other character is returned unchanged.
#[verifier::external_body]
fn lower_ascii_char(c: char) -> (r: char)
    ensures
        r == lower_char(c),
{
    c.to_ascii_lowercase()
}

/// Whether `c` is an ASCII letter, as `is_ascii_letter` describes.
fn is_ascii_letter_char(c: char) -> (b: bool)
    ensures
        b == is_ascii_letter(c),
{
    let x = c as u32;
    (65 <= x && x <= 90) || (97 <= x && x <= 122)
}

/// Path separators replaced by backslashes, every other character kept.
pub open spec fn normalize_seps(s: Seq<char>) -> Seq<char> {
    Seq::new(
        s.len(),
        |i: int|
            if s[i] == '/' {
                '\\'
            } else {
                s[i]
            },
    )
}

/// A drive designator: a single ASCII letter followed by a colon.
pub open spec fn is_drive_seg(seg: Seq<char>) -> bool {
    seg.len() == 2 && is_ascii_letter(seg[0]) && seg[1] == ':'
}

/// A path segment with each space preceded by a backslash.
pub open spec fn escape_spaces(seg: Seq<char>) -> Seq<char>
    decreases seg.len(),
{
    if seg.len() == 0 {
        Seq::empty()
    } else if seg.last() == ' ' {
        escape_spaces(seg.drop_last()) + seq!['\\', ' ']
    } else {
        escape_spaces(seg.drop_last()) + seq![seg.last()]
    }
}

/// Empty segments dropped, spaces escaped in the rest, order kept.
pub open spec fn keep_segments(segs: Seq<Seq<char>>) -> Seq<Seq<char>>
    decreases segs.len(),
{
    if segs.len() == 0 {
        Seq::empty()
    } else if segs.last().len() == 0 {
        keep_segments(segs.drop_last())
    } else {
        keep_segments(segs.drop_last()).push(escape_spaces(segs.last()))
    }
}

/// Parts joined with `sep` between them.
pub open spec fn join_with(parts: Seq<Seq<char>>, sep: char) -> Seq<char>
    decreases parts.len(),
{
    if parts.len() == 0 {
        Seq::empty()
    } else if parts.len() == 1 {
        parts[0]
    } else {
        join_with(parts.drop_last(), sep) + seq![sep] + parts.last()
    }
}

/// The converted parts of one path: a leading drive designator becomes
/// `/x` with the letter lower-cased, and the remaining segments are kept
/// in order, empties dropped and spaces escaped.
pub open spec fn unixify_parts(s: Seq<char>) -> Seq<Seq<char>> {
    let segs = split_on(normalize_seps(s), '\\');
    if segs.len() > 0 && is_drive_seg(segs[0]) {
        seq![seq!['/', lower_char(segs[0][0])]] + keep_segments(segs.drop_first())
    } else {
        keep_segments(segs)
    }
}

/// A Windows-style path respelled for a Unix shell.
pub open spec fn spec_unixify(s: Seq<char>) -> Seq<char> {
    join_with(unixify_parts(s), '/')
}

/// Every entry of a `;`-separated path list respelled.
pub open spec fn unixify_all(pieces: Seq<Seq<char>>) -> Seq<Seq<char>> {
    Seq::new(pieces.len(), |i: int| spec_unixify(pieces[i]))
}

/// A `;`-separated path list respelled entry by entry and joined with `:`.
pub open spec fn spec_unixify_env(s: Seq<char>) -> Seq<char> {
    join_with(unixify_all(split_on(s, ';')), ':')
}

/// `s` with every `'/'` replaced by `'\\'`, as `normalize_seps` describes.
fn normalize_path(s: &str) -> (r: String)
    ensures
        r@ == normalize_seps(s@),
{
    let n = s.unicode_len();
    let mut r = String::new();
    let mut i: usize = 0;
    while i < n
        invariant
            i <= n,
            n as nat == s@.len(),
            r@.len() == i,
            forall|t: int|
                0 <= t < i ==> r@[t] == (if s@[t] == '/' {
                    '\\'
                } else {
                    s@[t]
                }),
        decreases n - i,
    {
        let c = s.get_char(i);
        if c == '/' {
            push_char(&mut r, '\\');
        } else {
            push_char(&mut r, c);
        }
        i = i + 1;
    }
    proof {
        assert(r@ =~= normalize_seps(s@));
    }
    r
}

/// `seg` with each space preceded by a backslash, as `escape_spaces`
/// describes.
fn escape_segment(seg: &str) -> (r: String)
    ensures
        r@ == escape_spaces(seg@),
{
    let n = seg.unicode_len();
    let mut r = String::new();
    let mut i: usize = 0;
    proof {
        assert(seg@.take(0) =~= Seq::<char>::empty());
    }
    while i < n
        invariant
            i <= n,
            n as nat == seg@.len(),
            r@ == escape_spaces(seg@.take(i as int)),
        decreases n - i,
    {
        let c = seg.get_char(i);
        let ghost pre = r@;
        if c == ' ' {
            push_char(&mut r, '\\');
            push_char(&mut r, ' ');
            proof {
                assert(r@ =~= pre + seq!['\\', ' ']);
            }
        } else {
            push_char(&mut r, c);
            proof {
                assert(r@ =~= pre + seq![c]);
            }
        }
        proof {
            assert(seg@.take(i + 1).drop_last() =~= seg@.take(i as int));
            assert(seg@.take(i + 1).last() == seg@[i as int]);
        }
        i = i + 1;
    }
    proof {
        assert(seg@.take(n as int) =~= seg@);
    }
    r
}

/// One Windows-style path respelled for a Unix shell, as `spec_unixify`
/// describes.
pub fn unixify_path(path: &str) -> (r: String)
    ensures
        r@ == spec_unixify(path@),
{
    let norm = normalize_path(path);
    let segs = split_str(norm.as_str(), '\\');
    let ghost segs_dv = segs.deep_view();
    let mut out = String::new();
    let mut first_done: bool = false;
    let mut i: usize = 0;
    proof {
        lemma_split_on_len(norm@, '\\');
        assert(segs@.len() == segs_dv.len());
    }
    let s0_len = segs[0].as_str().unicode_len();
    let mut is_drive = false;
    if s0_len == 2 {
        let c1 = segs[0].as_str().get_char(1);
        if c1 == ':' {
            is_drive = is_ascii_letter_char(segs[0].as_str().get_char(0));
        }
    }
    proof {
        assert(segs_dv[0] == segs@[0]@);
        assert(is_drive == is_drive_seg(segs_dv[0]));
    }
    if is_drive {
        let lc = lower_ascii_char(segs[0].as_str().get_char(0));
        push_char(&mut out, '/');
        push_char(&mut out, lc);
        first_done = true;
        i = 1;
        proof {
            assert(out@ =~= seq!['/', lower_char(segs_dv[0][0])]);
        }
    }
    let ghost i0 = i as int;
    let ghost base: Seq<Seq<char>> = if is_drive {
        seq![seq!['/', lower_char(segs_dv[0][0])]]
    } else {
        Seq::empty()
    };
    let ghost tail = segs_dv.skip(i0);
    proof {
        assert(keep_segments(tail.take(0)) =~= Seq::<Seq<char>>::empty());
        assert(base + keep_segments(tail.take(0)) =~= base);
        if is_drive {
            assert(out@ == join_with(base, '/'));
        } else {
            assert(out@ == join_with(base, '/'));
        }
    }
    while i < segs.len()
        invariant
            i0 <= i as int <= segs.len(),
            0 <= i0 <= 1,
            segs_dv == segs.deep_view(),
            tail == segs_dv.skip(i0),
            out@ == join_with(base + keep_segments(tail.take(i - i0)), '/'),
            first_done == ((base + keep_segments(tail.take(i - i0))).len() > 0),
        decreases segs.len() - i,
    {
        let ghost parts = base + keep_segments(tail.take(i - i0));
        let seg_len = segs[i].as_str().unicode_len();
        proof {
            assert(tail[i - i0] == segs_dv[i as int]);
            assert(segs_dv[i as int] == segs@[i as int]@);
            assert(tail.take(i - i0 + 1).drop_last() =~= tail.take(i - i0));
            assert(tail.take(i - i0 + 1).last() == tail[i - i0]);
        }
        if seg_len > 0 {
            let esc = escape_segment(segs[i].as_str());
            let ghost pre = out@;
            if first_done {
                push_char(&mut out, '/');
            }
            out.append(esc.as_str());
            proof {
                let parts1 = parts.push(escape_spaces(tail[i - i0]));
                assert(parts1.drop_last() =~= parts);
                assert(base + keep_segments(tail.take(i - i0 + 1)) =~= parts1);
                if parts.len() > 0 {
                    assert(out@ =~= pre + seq!['/'] + esc@);
                    assert(out@ == join_with(parts1, '/'));
                } else {
                    assert(out@ =~= esc@);
                    assert(parts1.len() == 1);
                    assert(out@ == join_with(parts1, '/'));
                }
            }
            first_done = true;
        } else {
            proof {
                assert(base + keep_segments(tail.take(i - i0 + 1)) =~= parts);
            }
        }
        i = i + 1;
    }
    proof {
        assert(tail.take(segs.len() - i0) =~= tail);
        assert(norm@ == normalize_seps(path@));
        if is_drive {
            assert(segs_dv.skip(1) =~= segs_dv.drop_first());
            assert(unixify_parts(path@) =~= base + keep_segments(tail));
        } else {
            assert(segs_dv.skip(0) =~= segs_dv);
            assert(tail == segs_dv);
            assert(base + keep_segments(tail) =~= keep_segments(segs_dv));
            assert(unixify_parts(path@) =~= keep_segments(segs_dv));
        }
    }
    out
}

/// A `;`-separated path list respelled entry by entry and joined with
/// `:`, as `spec_unixify_env` describes.
pub fn unixify_path_env(path: &str) -> (r: String)
    ensures
        r@ == spec_unixify_env(path@),
{
    let pieces = split_str(path, ';');
    let ghost pieces_dv = pieces.deep_view();
    let mut out = String::new();
    let mut i: usize = 0;
    proof {
        assert(unixify_all(pieces_dv).take(0) =~= Seq::<Seq<char>>::empty());
    }
    while i < pieces.len()
        invariant
            i <= pieces.len(),
            pieces_dv == pieces.deep_view(),
            out@ == join_with(unixify_all(pieces_dv).take(i as int), ':'),
        decreases pieces.len() - i,
    {
        let u = unixify_path(pieces[i].as_str());
        let ghost mapped = unixify_all(pieces_dv);
        let ghost pre = out@;
        if i > 0 {
            push_char(&mut out, ':');
        }
        out.append(u.as_str());
        proof {
            assert(pieces_dv[i as int] == pieces@[i as int]@);
            assert(mapped[i as int] == spec_unixify(pieces_dv[i as int]));
            assert(mapped.take(i + 1).drop_last() =~= mapped.take(i as int));
            assert(mapped.take(i + 1).last() == mapped[i as int]);
            if i > 0 {
                assert(mapped.take(i as int).len() > 0);
                assert(out@ =~= pre + seq![':'] + u@);
                assert(out@ == join_with(mapped.take(i + 1), ':'));
            } else {
                assert(out@ =~= u@);
                assert(mapped.take(1).len() == 1);
                assert(out@ == join_with(mapped.take(i + 1), ':'));
            }
        }
        i = i + 1;
    }
    proof {
        let mapped = unixify_all(pieces_dv);
        assert(mapped.take(pieces.len() as int) =~= mapped);
    }
    out
}

} // verus!
