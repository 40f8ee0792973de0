//! Character-level text primitives: conversion between `String` and
//! `Vec<char>`, substring search, and whitespace trimming.
//!
//! All higher-level markup scanning is specified over `Seq<char>` and built on
//! the searched-from-the-left `spec_find_from` / searched-from-the-right
//! `spec_rfind` functions defined here.

use vstd::prelude::*;
use vstd::string::*;

verus! {

/// Whether `pat` occurs in `t` starting exactly at index `i`.
pub open spec fn match_at(t: Seq<char>, pat: Seq<char>, i: int) -> bool {
    0 <= i && i + pat.len() <= t.len() && t.subrange(i, i + pat.len() as int) == pat
}

/// The least index `i >= from` at which `pat` occurs in `t`, if any.
pub open spec fn spec_find_from(t: Seq<char>, pat: Seq<char>, from: int) -> Option<int>
    decreases t.len() - from,
    when 0 <= from && pat.len() > 0
{
    if from + pat.len() > t.len() {
        None
    } else if match_at(t, pat, from) {
        Some(from)
    } else {
        spec_find_from(t, pat, from + 1)
    }
}

/// The greatest index `i <= upto` at which `pat` occurs in `t`, if any.
pub open spec fn spec_rfind_upto(t: Seq<char>, pat: Seq<char>, upto: int) -> Option<int>
    decreases upto + 1,
    when upto >= -1
{
    if upto < 0 {
        None
    } else if match_at(t, pat, upto) {
        Some(upto)
    } else {
        spec_rfind_upto(t, pat, upto - 1)
    }
}

/// The greatest index at which `pat` occurs in `t`, if any.
pub open spec fn spec_rfind(t: Seq<char>, pat: Seq<char>) -> Option<int> {
    if pat.len() > t.len() {
        None
    } else {
        spec_rfind_upto(t, pat, t.len() - pat.len())
    }
}

/// A successful find is a match, bounded below by `from`, and least among
/// matches at or after `from`; a failed find means no match at or after `from`.
pub proof fn lemma_find_from_spec(t: Seq<char>, pat: Seq<char>, from: int)
    requires
        0 <= from,
        pat.len() > 0,
    ensures
        match spec_find_from(t, pat, from) {
            Some(i) => from <= i && i + pat.len() <= t.len() && match_at(t, pat, i)
                && (forall|j: int| from <= j < i ==> !match_at(t, pat, j)),
            None => forall|j: int| from <= j ==> !match_at(t, pat, j),
        },
    decreases t.len() - from,
{
    if from + pat.len() > t.len() {
        assert(forall|j: int| from <= j ==> !match_at(t, pat, j));
    } else if match_at(t, pat, from) {
    } else {
        lemma_find_from_spec(t, pat, from + 1);
    }
}

/// A successful backwards find is a match, bounded above by `upto`, and
/// greatest among matches at or before `upto`; a failed one means no match at
/// or before `upto`.
pub proof fn lemma_rfind_upto_spec(t: Seq<char>, pat: Seq<char>, upto: int)
    requires
        upto >= -1,
    ensures
        match spec_rfind_upto(t, pat, upto) {
            Some(i) => 0 <= i <= upto && match_at(t, pat, i)
                && (forall|j: int| i < j <= upto ==> !match_at(t, pat, j)),
            None => forall|j: int| 0 <= j <= upto ==> !match_at(t, pat, j),
        },
    decreases upto + 1,
{
    if upto < 0 {
    } else if match_at(t, pat, upto) {
    } else {
        lemma_rfind_upto_spec(t, pat, upto - 1);
    }
}

/// Extending the text on the left by a prefix shifts every match of the
/// suffix by the prefix's length.
pub proof fn lemma_match_at_shift(a: Seq<char>, b: Seq<char>, pat: Seq<char>, i: int)
    requires
        0 <= i,
    ensures
        match_at(b, pat, i) <==> match_at(a + b, pat, a.len() + i),
{
    if match_at(b, pat, i) {
        assert(b.subrange(i, i + pat.len() as int) =~= (a + b).subrange(
            a.len() + i,
            a.len() + i + pat.len() as int,
        ));
    }
    if match_at(a + b, pat, a.len() + i) {
        assert((a + b).subrange(a.len() + i, a.len() + i + pat.len() as int) =~= b.subrange(
            i,
            i + pat.len() as int,
        ));
    }
}

/// The characters of a string, in order, as a vector.
pub fn str_to_chars(s: &str) -> (r: Vec<char>)
    ensures
        r@ == s@,
{
    let n = s.unicode_len();
    let mut r: Vec<char> = Vec::new();
    let mut i: usize = 0;
    while i < n
        invariant
            i <= n,
            n == s@.len(),
            r@ == s@.take(i as int),
        decreases n - i,
    {
        let c = s.get_char(i);
        r.push(c);
        i = i + 1;
        assert(r@ =~= s@.take(i as int));
    }
    proof {
        assert(s@.take(n as int) =~= s@);
    }
    r
}

/// Relies on `core::iter::Iterator::collect`, which builds a `String` holding
/// the characters of the slice in order.
#[verifier::external_body]
pub fn chars_to_string(v: &[char]) -> (r: String)
    ensures
        r@ == v@,
{
    v.iter().collect()
}

/// The least index `i >= from` at which `pat` occurs in `t`, if any.
pub fn find_sub(t: &[char], pat: &[char], from: usize) -> (r: Option<usize>)
    requires
        from <= t@.len(),
        pat@.len() > 0,
    ensures
        match r {
            Some(i) => spec_find_from(t@, pat@, from as int) == Some(i as int),
            None => spec_find_from(t@, pat@, from as int) is None,
        },
{
    let n = t.len();
    let m = pat.len();
    let mut i = from;
    loop
        invariant
            from <= i <= n,
            n == t@.len(),
            m == pat@.len(),
            m > 0,
            spec_find_from(t@, pat@, from as int) == spec_find_from(t@, pat@, i as int),
        decreases n - i,
    {
        if m > n - i {
            return None;
        }
        if slice_matches_at(t, pat, i) {
            return Some(i);
        }
        proof {
            assert(spec_find_from(t@, pat@, i as int) == spec_find_from(t@, pat@, i + 1));
        }
        i = i + 1;
    }
}

/// Whether `pat` occurs in `t` starting exactly at index `i`.
pub fn slice_matches_at(t: &[char], pat: &[char], i: usize) -> (r: bool)
    requires
        i <= t@.len(),
    ensures
        r == match_at(t@, pat@, i as int),
{
    let n = t.len();
    let m = pat.len();
    if m > n - i {
        return false;
    }
    let mut j: usize = 0;
    while j < m
        invariant
            j <= m,
            n == t@.len(),
            m == pat@.len(),
            i + m <= n,
            forall|k: int| 0 <= k < j ==> t@[i + k] == pat@[k],
        decreases m - j,
    {
        assert(i + j < n);
        if t[i + j] != pat[j] {
            return false;
        }
        j = j + 1;
    }
    proof {
        assert(t@.subrange(i as int, i + m as int) =~= pat@);
    }
    true
}

/// The greatest index at which `pat` occurs in `t`, if any.
pub fn rfind_sub(t: &[char], pat: &[char]) -> (r: Option<usize>)
    requires
        pat@.len() > 0,
    ensures
        match r {
            Some(i) => spec_rfind(t@, pat@) == Some(i as int),
            None => spec_rfind(t@, pat@) is None,
        },
{
    let n = t.len();
    let m = pat.len();
    if m > n {
        return None;
    }
    let mut i = n - m;
    loop
        invariant
            0 <= i <= n - m,
            n == t@.len(),
            m == pat@.len(),
            m > 0,
            spec_rfind(t@, pat@) == spec_rfind_upto(t@, pat@, i as int),
        decreases i,
    {
        if slice_matches_at(t, pat, i) {
            return Some(i);
        }
        proof {
            assert(spec_rfind_upto(t@, pat@, i as int) == spec_rfind_upto(t@, pat@, i - 1));
        }
        if i == 0 {
            return None;
        }
        i = i - 1;
    }
}

/// Whether `pat` occurs anywhere in `t`.
pub open spec fn spec_contains_sub(t: Seq<char>, pat: Seq<char>) -> bool {
    spec_find_from(t, pat, 0) is Some
}

/// The set of characters that `char::is_whitespace` accepts; only that
/// function defines it.
pub uninterp spec fn whitespace_char(c: char) -> bool;

/// Relies on `char::is_whitespace`: the answer depends on the character alone.
pub assume_specification[ char::is_whitespace ](c: char) -> (r: bool)
    ensures
        r == whitespace_char(c),
;

/// `t` without its leading whitespace characters.
pub open spec fn spec_trim_start(t: Seq<char>) -> Seq<char>
    decreases t.len(),
{
    if t.len() > 0 && whitespace_char(t[0]) {
        spec_trim_start(t.drop_first())
    } else {
        t
    }
}

/// `t` without its trailing whitespace characters.
pub open spec fn spec_trim_end(t: Seq<char>) -> Seq<char>
    decreases t.len(),
{
    if t.len() > 0 && whitespace_char(t.last()) {
        spec_trim_end(t.drop_last())
    } else {
        t
    }
}

/// `t` without leading and trailing whitespace.
pub open spec fn spec_trim(t: Seq<char>) -> Seq<char> {
    spec_trim_end(spec_trim_start(t))
}

/// If the first `s` characters are whitespace and the character at `s` (when
/// present) is not, trimming the start keeps exactly the suffix from `s`.
pub proof fn lemma_trim_start_at(t: Seq<char>, s: int)
    requires
        0 <= s <= t.len(),
        forall|k: int| 0 <= k < s ==> whitespace_char(t[k]),
        s == t.len() || !whitespace_char(t[s]),
    ensures
        spec_trim_start(t) == t.subrange(s, t.len() as int),
    decreases s,
{
    if s == 0 {
        assert(t.subrange(0, t.len() as int) =~= t);
    } else {
        lemma_trim_start_at(t.drop_first(), s - 1);
        assert(t.drop_first().subrange(s - 1, t.len() - 1) =~= t.subrange(s, t.len() as int));
    }
}

/// If every character from `e` on is whitespace and the character before `e`
/// (when present) is not, trimming the end keeps exactly the prefix up to `e`.
pub proof fn lemma_trim_end_at(t: Seq<char>, e: int)
    requires
        0 <= e <= t.len(),
        forall|k: int| e <= k < t.len() ==> whitespace_char(t[k]),
        e == 0 || !whitespace_char(t[e - 1]),
    ensures
        spec_trim_end(t) == t.subrange(0, e),
    decreases t.len() - e,
{
    if e == t.len() {
        assert(t.subrange(0, e) =~= t);
    } else {
        lemma_trim_end_at(t.drop_last(), e);
        assert(t.drop_last().subrange(0, e) =~= t.subrange(0, e));
    }
}

/// The characters of `t` with leading and trailing whitespace removed.
pub fn trim_chars(t: &[char]) -> (r: Vec<char>)
    ensures
        r@ == spec_trim(t@),
{
    let n = t.len();
    let mut s: usize = 0;
    loop
        invariant
            0 <= s <= n,
            n == t@.len(),
            forall|k: int| 0 <= k < s ==> whitespace_char(t@[k]),
        ensures
            0 <= s <= n,
            forall|k: int| 0 <= k < s ==> whitespace_char(t@[k]),
            s == n || !whitespace_char(t@[s as int]),
        decreases n - s,
    {
        if s >= n {
            break;
        }
        if !t[s].is_whitespace() {
            break;
        }
        s = s + 1;
    }
    proof {
        lemma_trim_start_at(t@, s as int);
    }
    let mut e: usize = n;
    loop
        invariant
            s <= e <= n,
            n == t@.len(),
            forall|k: int| e <= k < n ==> whitespace_char(t@[k]),
        ensures
            s <= e <= n,
            forall|k: int| e <= k < n ==> whitespace_char(t@[k]),
            e == s || !whitespace_char(t@[e - 1]),
        decreases e,
    {
        if e <= s {
            break;
        }
        if !t[e - 1].is_whitespace() {
            break;
        }
        e = e - 1;
    }
    proof {
        let suffix = t@.subrange(s as int, n as int);
        if e == s {
            lemma_trim_end_at(suffix, 0);
        } else {
            lemma_trim_end_at(suffix, e - s);
        }
        assert(suffix.subrange(0, e - s) =~= t@.subrange(s as int, e as int));
    }
    let mut r: Vec<char> = Vec::new();
    let mut k = s;
    while k < e
        invariant
            s <= k <= e <= n,
            n == t@.len(),
            r@ == t@.subrange(s as int, k as int),
        decreases e - k,
    {
        r.push(t[k]);
        k = k + 1;
        assert(r@ =~= t@.subrange(s as int, k as int));
    }
    r
}

/// The characters of `t` from `a` (inclusive) to `b` (exclusive).
pub fn copy_range(t: &[char], a: usize, b: usize) -> (r: Vec<char>)
    requires
        a <= b <= t@.len(),
    ensures
        r@ == t@.subrange(a as int, b as int),
{
    let mut r: Vec<char> = Vec::new();
    let mut k = a;
    while k < b
        invariant
            a <= k <= b <= t@.len(),
            r@ == t@.subrange(a as int, k as int),
        decreases b - k,
    {
        r.push(t[k]);
        k = k + 1;
        assert(r@ =~= t@.subrange(a as int, k as int));
    }
    r
}

/// The parts joined left to right with `sep` between consecutive parts.
pub open spec fn spec_join(parts: Seq<Seq<char>>, sep: Seq<char>) -> Seq<char>
    decreases parts.len(),
{
    if parts.len() == 0 {
        Seq::empty()
    } else if parts.len() == 1 {
        parts[0]
    } else {
        spec_join(parts.drop_last(), sep) + sep + parts.last()
    }
}

/// The views of a run of character vectors.
pub open spec fn vecs_views(v: Seq<Vec<char>>) -> Seq<Seq<char>> {
    Seq::new(v.len(), |i: int| v[i]@)
}

/// The pieces of `t` from `from` on, split at every occurrence of `sep`; a
/// trailing separator yields a trailing empty piece.
pub open spec fn spec_split_from(t: Seq<char>, sep: char, from: int) -> Seq<Seq<char>>
    decreases t.len() - from,
    when 0 <= from <= t.len()
    via spec_split_from_decreases
{
    match spec_find_from(t, seq![sep], from) {
        Some(i) => seq![t.subrange(from, i)] + spec_split_from(t, sep, i + 1),
        None => seq![t.subrange(from, t.len() as int)],
    }
}

#[via_fn]
proof fn spec_split_from_decreases(t: Seq<char>, sep: char, from: int) {
    lemma_find_from_spec(t, seq![sep], from);
}

/// The pieces of `t`, split at every occurrence of `sep`.
pub open spec fn spec_split(t: Seq<char>, sep: char) -> Seq<Seq<char>> {
    spec_split_from(t, sep, 0)
}

/// Splits the characters at every occurrence of `sep`.
pub fn split_char(t: &[char], sep: char) -> (r: Vec<Vec<char>>)
    ensures
        vecs_views(r@) == spec_split(t@, sep),
{
    let mut pat: Vec<char> = Vec::new();
    pat.push(sep);
    let n = t.len();
    let mut r: Vec<Vec<char>> = Vec::new();
    let mut cur: usize = 0;
    loop
        invariant_except_break
            spec_split(t@, sep) =~= vecs_views(r@) + spec_split_from(t@, sep, cur as int),
        invariant
            0 <= cur <= n,
            n == t@.len(),
            pat@ == seq![sep],
        ensures
            vecs_views(r@) =~= spec_split(t@, sep),
        decreases n - cur,
    {
        let ghost pre = r@;
        let found = find_sub(t, pat.as_slice(), cur);
        proof {
            lemma_find_from_spec(t@, pat@, cur as int);
        }
        match found {
            Some(i) => {
                let piece = copy_range(t, cur, i);
                r.push(piece);
                proof {
                    lemma_vecs_views_push(pre, r@);
                    assert(vecs_views(r@) =~= vecs_views(pre).push(t@.subrange(
                        cur as int,
                        i as int,
                    )));
                }
                cur = i + 1;
            }
            None => {
                let piece = copy_range(t, cur, n);
                r.push(piece);
                proof {
                    lemma_vecs_views_push(pre, r@);
                    assert(vecs_views(r@) =~= vecs_views(pre).push(t@.subrange(
                        cur as int,
                        n as int,
                    )));
                    assert(spec_split_from(t@, sep, cur as int) == seq![
                        t@.subrange(cur as int, n as int),
                    ]);
                }
                break;
            }
        }
    }
    r
}

/// Pushing a piece extends the viewed list by its view.
proof fn lemma_vecs_views_push(pre: Seq<Vec<char>>, post: Seq<Vec<char>>)
    requires
        post == pre.push(post.last()),
        post.len() == pre.len() + 1,
    ensures
        vecs_views(post) =~= vecs_views(pre).push(post.last()@),
{
    assert forall|j: int| 0 <= j < pre.len() implies #[trigger] vecs_views(post)[j]
        == vecs_views(pre)[j] by {
        assert(post[j] == pre[j]);
    }
}

/// `t` from `from` on, with every occurrence of `pat` replaced by `rep`, left
/// to right; replacements are not rescanned.
pub open spec fn spec_replace_from(
    t: Seq<char>,
    pat: Seq<char>,
    rep: Seq<char>,
    from: int,
) -> Seq<char>
    decreases t.len() - from,
    when 0 <= from <= t.len() && pat.len() > 0
    via spec_replace_from_decreases
{
    match spec_find_from(t, pat, from) {
        Some(i) => t.subrange(from, i) + rep + spec_replace_from(t, pat, rep, i + pat.len() as int),
        None => t.subrange(from, t.len() as int),
    }
}

#[via_fn]
proof fn spec_replace_from_decreases(t: Seq<char>, pat: Seq<char>, rep: Seq<char>, from: int) {
    lemma_find_from_spec(t, pat, from);
}

/// `t` with every occurrence of `pat` replaced by `rep`.
pub open spec fn spec_replace(t: Seq<char>, pat: Seq<char>, rep: Seq<char>) -> Seq<char> {
    spec_replace_from(t, pat, rep, 0)
}

/// Replaces every occurrence of `pat` by `rep`, left to right; replacements
/// are not rescanned.
pub fn replace_all(t: &[char], pat: &[char], rep: &[char]) -> (r: Vec<char>)
    requires
        pat@.len() > 0,
    ensures
        r@ == spec_replace(t@, pat@, rep@),
{
    let n = t.len();
    let mut r: Vec<char> = Vec::new();
    let mut cur: usize = 0;
    loop
        invariant_except_break
            spec_replace(t@, pat@, rep@) =~= r@ + spec_replace_from(t@, pat@, rep@, cur as int),
        invariant
            0 <= cur <= n,
            n == t@.len(),
            pat@.len() > 0,
        ensures
            r@ =~= spec_replace(t@, pat@, rep@),
        decreases n - cur,
    {
        let ghost pre = r@;
        let ghost cur0 = cur as int;
        let found = find_sub(t, pat, cur);
        proof {
            lemma_find_from_spec(t@, pat@, cur as int);
        }
        match found {
            Some(i) => {
                let mut piece = copy_range(t, cur, i);
                r.append(&mut piece);
                let mut replacement = copy_range(rep, 0, rep.len());
                r.append(&mut replacement);
                cur = i + pat.len();
                proof {
                    assert(rep@.subrange(0, rep@.len() as int) =~= rep@);
                    assert(pre + spec_replace_from(t@, pat@, rep@, cur0) =~= r@
                        + spec_replace_from(t@, pat@, rep@, cur as int)) by {
                        assert(spec_replace_from(t@, pat@, rep@, cur0) == t@.subrange(
                            cur0,
                            i as int,
                        ) + rep@ + spec_replace_from(t@, pat@, rep@, cur as int));
                    }
                }
            }
            None => {
                let mut piece = copy_range(t, cur, n);
                r.append(&mut piece);
                proof {
                    assert(r@ =~= pre + spec_replace_from(t@, pat@, rep@, cur as int));
                }
                break;
            }
        }
    }
    r
}

/// How many times `c` occurs in `t`.
pub open spec fn spec_count_char(t: Seq<char>, c: char) -> int
    decreases t.len(),
{
    if t.len() == 0 {
        0
    } else {
        spec_count_char(t.drop_last(), c) + if t.last() == c {
            1int
        } else {
            0int
        }
    }
}

/// Counts the occurrences of `c`.
pub fn count_char(t: &[char], c: char) -> (r: usize)
    ensures
        r as int == spec_count_char(t@, c),
{
    let n = t.len();
    let mut r: usize = 0;
    let mut i: usize = 0;
    while i < n
        invariant
            0 <= i <= n,
            n == t@.len(),
            r <= i,
            r as int == spec_count_char(t@.take(i as int), c),
        decreases n - i,
    {
        proof {
            assert(t@.take(i + 1).drop_last() =~= t@.take(i as int));
            assert(t@.take(i + 1).last() == t@[i as int]);
        }
        if t[i] == c {
            r = r + 1;
        }
        i = i + 1;
    }
    proof {
        assert(t@.take(n as int) =~= t@);
    }
    r
}

/// The views of a run of strings.
pub open spec fn seq_views(v: Seq<String>) -> Seq<Seq<char>> {
    Seq::new(v.len(), |i: int| v[i]@)
}

/// The strings joined left to right with `sep` between consecutive entries.
pub fn join_strings(parts: &Vec<String>, sep: &str) -> (r: String)
    ensures
        r@ == spec_join(seq_views(parts@), sep@),
{
    let ghost views = seq_views(parts@);
    let mut r = String::new();
    let mut i: usize = 0;
    while i < parts.len()
        invariant
            0 <= i <= parts@.len(),
            views == seq_views(parts@),
            r@ == spec_join(views.take(i as int), sep@),
        decreases parts@.len() - i,
    {
        if i > 0 {
            r.append(sep);
        }
        r.append(parts[i].as_str());
        proof {
            assert(views.take(i + 1).drop_last() =~= views.take(i as int));
            assert(views.take(i + 1).last() == views[i as int]);
            if i == 0 {
                assert(spec_join(views.take(1), sep@) == views[0]);
            }
        }
        i = i + 1;
    }
    proof {
        assert(views.take(parts@.len() as int) =~= views);
    }
    r
}

/// Whether two string slices hold the same characters.
pub fn str_eq(a: &str, b: &str) -> (r: bool)
    ensures
        r == (a@ == b@),
{
    let x: String = a.to_owned();
    let y: String = b.to_owned();
    x == y
}

/// Whether `pat` occurs anywhere in `t`.
pub fn contains_sub(t: &[char], pat: &[char]) -> (r: bool)
    requires
        pat@.len() > 0,
    ensures
        r == spec_contains_sub(t@, pat@),
{
    let found = find_sub(t, pat, 0);
    found.is_some()
}

} // verus!
