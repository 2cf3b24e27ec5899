//! A scanner for trace and routine markers in source lines: a marker is a
//! prefix such as `ores-trace-` followed by a run of identifier characters.

use vstd::prelude::*;

use crate::text::{has_prefix, is_prefix, text_eq, texts};

verus! {

/// The first position at or after `i` where `p` occurs in `s`.
pub open spec fn find_from(s: Seq<char>, p: Seq<char>, i: nat) -> Option<nat>
    decreases s.len() - i,
{
    if i + p.len() > s.len() {
        None
    } else if p.len() == 0 || s.subrange(i as int, (i + p.len()) as int) == p {
        Some(i)
    } else {
        find_from(s, p, i + 1)
    }
}

/// A character that may stand in a marker: an ASCII letter or digit, `_` or `-`.
pub open spec fn is_marker_char(c: char) -> bool {
    ||| 'a' <= c <= 'z'
    ||| 'A' <= c <= 'Z'
    ||| '0' <= c <= '9'
    ||| c == '_'
    ||| c == '-'
}

/// The position at or after `i` where the run of marker characters ends.
pub open spec fn marker_run_end(s: Seq<char>, i: nat) -> nat
    decreases s.len() - i,
{
    if i < s.len() && is_marker_char(s[i as int]) {
        marker_run_end(s, i + 1)
    } else {
        i
    }
}

/// The first position at or after `i` that holds `c`.
pub open spec fn find_char_from(s: Seq<char>, c: char, i: nat) -> Option<nat>
    decreases s.len() - i,
{
    if i >= s.len() {
        None
    } else if s[i as int] == c {
        Some(i)
    } else {
        find_char_from(s, c, i + 1)
    }
}

/// The suffix of every marker in `line`: after each occurrence of `prefix`,
/// the run of marker characters that follows it; the search goes on after
/// that run.
pub open spec fn markers_of(line: Seq<char>, prefix: Seq<char>) -> Seq<Seq<char>>
    decreases line.len(),
{
    if prefix.len() == 0 {
        Seq::empty()
    } else {
        match find_from(line, prefix, 0) {
            None => Seq::empty(),
            Some(start) => {
                let after = line.skip((start + prefix.len()) as int);
                let end = marker_run_end(after, 0);
                proof {
                    lemma_find_from_bounds(line, prefix, 0);
                    lemma_marker_run_end_bounds(after, 0);
                }
                seq![after.take(end as int)] + markers_of(after.skip(end as int), prefix)
            },
        }
    }
}

/// Every literal in `line` in a declaring form: the text between each
/// occurrence of `opener` and the next `"`, kept when it starts with
/// `prefix`; the search goes on after that quote and stops at an opener with
/// no closing quote.
pub open spec fn declared_markers_of(line: Seq<char>, opener: Seq<char>, prefix: Seq<char>) -> Seq<
    Seq<char>,
>
    decreases line.len(),
{
    match find_from(line, opener, 0) {
        None => Seq::empty(),
        Some(start) => {
            let after = line.skip((start + opener.len()) as int);
            match find_char_from(after, '"', 0) {
                None => Seq::empty(),
                Some(q) => {
                    proof {
                        lemma_find_from_bounds(line, opener, 0);
                        lemma_find_char_from_bounds(after, '"', 0);
                    }
                    let literal = after.take(q as int);
                    let rest = after.skip((q + 1) as int);
                    if is_prefix(prefix, literal) {
                        seq![literal] + declared_markers_of(rest, opener, prefix)
                    } else {
                        declared_markers_of(rest, opener, prefix)
                    }
                },
            }
        },
    }
}

/// A match lies inside the text, at or after where the search began.
pub proof fn lemma_find_from_bounds(s: Seq<char>, p: Seq<char>, i: nat)
    ensures
        find_from(s, p, i) matches Some(j) ==> i <= j && j + p.len() <= s.len(),
    decreases s.len() - i,
{
    if i + p.len() <= s.len() && p.len() > 0 && s.subrange(i as int, (i + p.len()) as int) != p {
        lemma_find_from_bounds(s, p, i + 1);
    }
}

/// A found character lies inside the text, at or after where the search began.
pub proof fn lemma_find_char_from_bounds(s: Seq<char>, c: char, i: nat)
    ensures
        find_char_from(s, c, i) matches Some(j) ==> i <= j < s.len(),
    decreases s.len() - i,
{
    if i < s.len() && s[i as int] != c {
        lemma_find_char_from_bounds(s, c, i + 1);
    }
}

/// A run of marker characters ends inside the text, not before it began.
pub proof fn lemma_marker_run_end_bounds(s: Seq<char>, i: nat)
    requires
        i <= s.len(),
    ensures
        i <= marker_run_end(s, i) <= s.len(),
    decreases s.len() - i,
{
    if i < s.len() && is_marker_char(s[i as int]) {
        lemma_marker_run_end_bounds(s, i + 1);
    }
}

/// The first position at or after `from` where `p` occurs in `s`.
fn find_text(s: &str, p: &str, from: usize) -> (r: Option<usize>)
    ensures
        match (r, find_from(s@, p@, from as nat)) {
            (Some(x), Some(y)) => x == y,
            (None, None) => true,
            _ => false,
        },
{
    let n = s.unicode_len();
    let m = p.unicode_len();
    if m == 0 {
        return if from <= n {
            Some(from)
        } else {
            None
        };
    }
    let mut i = from;
    while i <= n && m <= n - i
        invariant
            n == s@.len(),
            m == p@.len(),
            m > 0,
            from <= i,
            find_from(s@, p@, i as nat) == find_from(s@, p@, from as nat),
        decreases n + 1 - i,
    {
        let piece = s.substring_char(i, i + m);
        if text_eq(piece, p) {
            return Some(i);
        }
        i = i + 1;
    }
    None
}

/// The first position at or after `from` that holds `c`.
fn find_char(s: &str, c: char, from: usize) -> (r: Option<usize>)
    ensures
        match (r, find_char_from(s@, c, from as nat)) {
            (Some(x), Some(y)) => x == y,
            (None, None) => true,
            _ => false,
        },
{
    let n = s.unicode_len();
    let mut i = from;
    while i < n
        invariant
            n == s@.len(),
            from <= i,
            find_char_from(s@, c, i as nat) == find_char_from(s@, c, from as nat),
        decreases n - i,
    {
        if s.get_char(i) == c {
            return Some(i);
        }
        i = i + 1;
    }
    None
}

fn char_is_marker(c: char) -> (r: bool)
    ensures
        r == is_marker_char(c),
{
    ('a' <= c && c <= 'z') || ('A' <= c && c <= 'Z') || ('0' <= c && c <= '9') || c == '_' || c
        == '-'
}

/// The position at or after `from` where the run of marker characters ends.
fn run_end(s: &str, from: usize) -> (r: usize)
    requires
        from <= s@.len(),
    ensures
        r == marker_run_end(s@, from as nat),
{
    let n = s.unicode_len();
    let mut i = from;
    while i < n && char_is_marker(s.get_char(i))
        invariant
            n == s@.len(),
            from <= i <= n,
            marker_run_end(s@, i as nat) == marker_run_end(s@, from as nat),
        decreases n - i,
    {
        i = i + 1;
    }
    i
}

/// Every marker suffix on `line`: the run of marker characters that follows
/// each occurrence of the non-empty `prefix`.
pub fn markers(line: &str, prefix: &str) -> (found: Vec<String>)
    requires
        prefix@.len() > 0,
    ensures
        texts(found@) == markers_of(line@, prefix@),
{
    let m = prefix.unicode_len();
    let mut found: Vec<String> = Vec::new();
    let mut rest: &str = line;
    loop
        invariant
            m == prefix@.len(),
            m > 0,
            texts(found@) + markers_of(rest@, prefix@) == markers_of(line@, prefix@),
        decreases rest@.len(),
    {
        match find_text(rest, prefix, 0) {
            None => {
                assert(texts(found@) + Seq::<Seq<char>>::empty() =~= texts(found@));
                return found;
            },
            Some(start) => {
                proof {
                    lemma_find_from_bounds(rest@, prefix@, 0);
                }
                let n = rest.unicode_len();
                let after = rest.substring_char(start + m, n);
                assert(after@ =~= rest@.skip(start + m));
                let end = run_end(after, 0);
                proof {
                    lemma_marker_run_end_bounds(after@, 0);
                }
                let k = after.unicode_len();
                let piece = after.substring_char(0, end);
                let ghost before = texts(found@);
                found.push(piece.to_owned());
                proof {
                    assert(texts(found@) =~= before.push(after@.take(end as int)));
                    assert(after@.take(end as int) =~= after@.subrange(0, end as int));
                    assert(after@.subrange(end as int, k as int) =~= after@.skip(end as int));
                    assert(before.push(after@.take(end as int)) + markers_of(after@.skip(end as int), prefix@)
                        =~= before + (seq![after@.take(end as int)] + markers_of(after@.skip(end as int), prefix@)));
                }
                rest = after.substring_char(end, k);
            },
        }
    }
}

/// Every marker declared by `line` in a declaring form: `opener` is the text
/// just before the opening quote of the literal. All occurrences count, not
/// only the first.
pub fn declared_markers(line: &str, opener: &str, prefix: &str) -> (found: Vec<String>)
    ensures
        texts(found@) == declared_markers_of(line@, opener@, prefix@),
{
    let m = opener.unicode_len();
    let mut found: Vec<String> = Vec::new();
    let mut rest: &str = line;
    loop
        invariant
            m == opener@.len(),
            texts(found@) + declared_markers_of(rest@, opener@, prefix@) == declared_markers_of(
                line@,
                opener@,
                prefix@,
            ),
        decreases rest@.len(),
    {
        match find_text(rest, opener, 0) {
            None => {
                assert(texts(found@) + Seq::<Seq<char>>::empty() =~= texts(found@));
                return found;
            },
            Some(start) => {
                proof {
                    lemma_find_from_bounds(rest@, opener@, 0);
                }
                let n = rest.unicode_len();
                let after = rest.substring_char(start + m, n);
                assert(after@ =~= rest@.skip(start + m));
                match find_char(after, '"', 0) {
                    None => {
                        assert(texts(found@) + Seq::<Seq<char>>::empty() =~= texts(found@));
                        return found;
                    },
                    Some(q) => {
                        proof {
                            lemma_find_char_from_bounds(after@, '"', 0);
                        }
                        let k = after.unicode_len();
                        let literal = after.substring_char(0, q);
                        let remainder = after.substring_char(q + 1, k);
                        assert(literal@ =~= after@.take(q as int));
                        assert(remainder@ =~= after@.skip(q + 1));
                        let ghost before = texts(found@);
                        if has_prefix(literal, prefix) {
                            found.push(literal.to_owned());
                            proof {
                                assert(texts(found@) =~= before.push(literal@));
                                assert(before.push(literal@) + declared_markers_of(remainder@, opener@, prefix@)
                                    =~= before + (seq![literal@] + declared_markers_of(remainder@, opener@, prefix@)));
                            }
                        }
                        rest = remainder;
                    },
                }
            },
        }
    }
}

} // verus!

verus! {

/// Every literal that `declared_markers` reports starts with the prefix.
pub proof fn lemma_declared_markers_have_prefix(line: Seq<char>, opener: Seq<char>, prefix: Seq<char>)
    ensures
        forall|i: int|
            0 <= i < declared_markers_of(line, opener, prefix).len() ==> is_prefix(
                prefix,
                #[trigger] declared_markers_of(line, opener, prefix)[i],
            ),
    decreases line.len(),
{
    if let Some(start) = find_from(line, opener, 0) {
        lemma_find_from_bounds(line, opener, 0);
        let after = line.skip((start + opener.len()) as int);
        if let Some(q) = find_char_from(after, '"', 0) {
            lemma_find_char_from_bounds(after, '"', 0);
            let rest = after.skip((q + 1) as int);
            lemma_declared_markers_have_prefix(rest, opener, prefix);
            let tail = declared_markers_of(rest, opener, prefix);
            if is_prefix(prefix, after.take(q as int)) {
                assert forall|i: int|
                    0 <= i < declared_markers_of(line, opener, prefix).len() implies is_prefix(
                    prefix,
                    #[trigger] declared_markers_of(line, opener, prefix)[i],
                ) by {
                    if i > 0 {
                        assert(declared_markers_of(line, opener, prefix)[i] == tail[i - 1]);
                    }
                }
            }
        }
    }
}

/// Every suffix that `markers` reports is made of marker characters only.
pub proof fn lemma_markers_are_marker_runs(line: Seq<char>, prefix: Seq<char>)
    ensures
        forall|i: int, j: int|
            0 <= i < markers_of(line, prefix).len() && 0 <= j < markers_of(line, prefix)[i].len()
                ==> is_marker_char(#[trigger] markers_of(line, prefix)[i][j]),
    decreases line.len(),
{
    if prefix.len() > 0 {
        if let Some(start) = find_from(line, prefix, 0) {
            lemma_find_from_bounds(line, prefix, 0);
            let after = line.skip((start + prefix.len()) as int);
            let end = marker_run_end(after, 0);
            lemma_marker_run_end_bounds(after, 0);
            lemma_marker_run_is_marker_chars(after, 0);
            let rest = after.skip(end as int);
            lemma_markers_are_marker_runs(rest, prefix);
            let all = markers_of(line, prefix);
            assert forall|i: int, j: int|
                0 <= i < all.len() && 0 <= j < all[i].len() implies is_marker_char(
                #[trigger] all[i][j],
            ) by {
                if i == 0 {
                    assert(all[0] == after.take(end as int));
                    assert(all[0][j] == after[j]);
                } else {
                    assert(all[i] == markers_of(rest, prefix)[i - 1]);
                }
            }
        }
    }
}

/// The characters from `i` to the end of the run are marker characters.
pub proof fn lemma_marker_run_is_marker_chars(s: Seq<char>, i: nat)
    requires
        i <= s.len(),
    ensures
        forall|j: int| i <= j < marker_run_end(s, i) ==> is_marker_char(#[trigger] s[j]),
    decreases s.len() - i,
{
    if i < s.len() && is_marker_char(s[i as int]) {
        lemma_marker_run_is_marker_chars(s, i + 1);
    }
}

} // verus!
