//! Character-level helpers on strings: conversion between `str` and
//! character vectors, searching, splitting, trimming and decimal numbers.

use vstd::prelude::*;

verus! {

/// Appends one character to a `String` (`String::push`).
#[verifier::external_body]
pub(crate) fn push_char(s: &mut String, c: char)
    ensures
        final(s)@ == old(s)@.push(c),
{
    s.push(c);
}

/// The characters of `s`, in order.
pub fn chars_of(s: &str) -> (v: Vec<char>)
    ensures
        v@ == s@,
{
    broadcast use vstd::string::axiom_spec_iter;
    let mut v: Vec<char> = Vec::new();
    for c in it: s.chars()
        invariant
            it.seq() == s@,
            v@ == it.seq().take(it.index() as int),
    {
        v.push(c);
        assert(v@ =~= it.seq().take(it.index() as int + 1));
    }
    assert(v@ =~= s@);
    v
}

/// The string made of the characters of `v`, in order.
pub fn string_of(v: &Vec<char>) -> (s: String)
    ensures
        s@ == v@,
{
    let mut s = String::new();
    let mut i: usize = 0;
    while i < v.len()
        invariant
            i <= v.len(),
            s@ == v@.subrange(0, i as int),
        decreases v.len() - i,
    {
        push_char(&mut s, v[i]);
        i = i + 1;
        assert(s@ =~= v@.subrange(0, i as int));
    }
    assert(s@ =~= v@);
    s
}

/// The characters `s[from..to]` as a new vector.
pub fn slice_chars(s: &Vec<char>, from: usize, to: usize) -> (v: Vec<char>)
    requires
        from <= to <= s@.len(),
    ensures
        v@ == s@.subrange(from as int, to as int),
{
    let mut v: Vec<char> = Vec::new();
    let mut i: usize = from;
    while i < to
        invariant
            from <= i <= to,
            to <= s@.len(),
            v@ == s@.subrange(from as int, i as int),
        decreases to - i,
    {
        v.push(s[i]);
        i = i + 1;
        assert(v@ =~= s@.subrange(from as int, i as int));
    }
    v
}

/// Appends the characters of `t` to `v`.
pub fn extend_chars(v: &mut Vec<char>, t: &Vec<char>)
    ensures
        final(v)@ == old(v)@ + t@,
{
    let mut i: usize = 0;
    while i < t.len()
        invariant
            i <= t.len(),
            v@ == old(v)@ + t@.subrange(0, i as int),
        decreases t.len() - i,
    {
        v.push(t[i]);
        i = i + 1;
        assert(v@ =~= old(v)@ + t@.subrange(0, i as int));
    }
    assert(t@.subrange(0, t@.len() as int) =~= t@);
}

/// Whether `s` and `t` hold the same characters.
pub fn chars_eq(s: &Vec<char>, t: &Vec<char>) -> (b: bool)
    ensures
        b == (s@ == t@),
{
    if s.len() != t.len() {
        return false;
    }
    let mut i: usize = 0;
    while i < s.len()
        invariant
            s@.len() == t@.len(),
            i <= s@.len(),
            s@.subrange(0, i as int) == t@.subrange(0, i as int),
        decreases s.len() - i,
    {
        if s[i] != t[i] {
            assert(s@[i as int] != t@[i as int]);
            return false;
        }
        assert(s@.subrange(0, i + 1) =~= s@.subrange(0, i as int).push(s@[i as int]));
        assert(t@.subrange(0, i + 1) =~= t@.subrange(0, i as int).push(t@[i as int]));
        i = i + 1;
    }
    assert(s@ =~= s@.subrange(0, s@.len() as int));
    assert(t@ =~= t@.subrange(0, t@.len() as int));
    true
}

/// Whether `s` and the string `t` hold the same characters.
pub fn chars_eq_str(s: &Vec<char>, t: &str) -> (b: bool)
    ensures
        b == (s@ == t@),
{
    let tv = chars_of(t);
    chars_eq(s, &tv)
}

/// Whether `pat` stands in `s` at position `i`.
pub open spec fn occurs_at(s: Seq<char>, pat: Seq<char>, i: int) -> bool {
    0 <= i && i + pat.len() <= s.len() && s.subrange(i, i + pat.len()) == pat
}

/// The first position at or after `from` where `pat` stands in `s`.
pub open spec fn find_from(s: Seq<char>, pat: Seq<char>, from: int) -> Option<int>
    decreases s.len() + 1 - from,
{
    if from < 0 || from + pat.len() > s.len() {
        None
    } else if s.subrange(from, from + pat.len()) == pat {
        Some(from)
    } else {
        find_from(s, pat, from + 1)
    }
}

/// The first position where `pat` stands in `s`.
pub open spec fn find(s: Seq<char>, pat: Seq<char>) -> Option<int> {
    find_from(s, pat, 0)
}

/// The last position at or before `i` where `pat` stands in `s`.
pub open spec fn rfind_from(s: Seq<char>, pat: Seq<char>, i: int) -> Option<int>
    decreases i + 1,
{
    if i < 0 {
        None
    } else if occurs_at(s, pat, i) {
        Some(i)
    } else {
        rfind_from(s, pat, i - 1)
    }
}

/// The last position where `pat` stands in `s`.
pub open spec fn rfind(s: Seq<char>, pat: Seq<char>) -> Option<int> {
    rfind_from(s, pat, s.len() - pat.len())
}

/// A found position lies in range and `pat` stands there, after `from`,
/// and nowhere between `from` and it; when nothing is found, `pat` stands
/// nowhere at or after `from`.
pub proof fn lemma_find_from(s: Seq<char>, pat: Seq<char>, from: int)
    requires
        0 <= from,
    ensures
        find_from(s, pat, from) matches Some(i) ==> from <= i && occurs_at(s, pat, i) && forall|
            j: int,
        | from <= j < i ==> !occurs_at(s, pat, j),
        find_from(s, pat, from) is None ==> forall|j: int| from <= j ==> !occurs_at(s, pat, j),
    decreases s.len() + 1 - from,
{
    if from + pat.len() > s.len() {
    } else if s.subrange(from, from + pat.len()) == pat {
    } else {
        lemma_find_from(s, pat, from + 1);
    }
}

/// A found last position lies in range and `pat` stands there, and
/// nowhere after it up to `i`.
pub proof fn lemma_rfind_from(s: Seq<char>, pat: Seq<char>, i: int)
    ensures
        rfind_from(s, pat, i) matches Some(k) ==> k <= i && occurs_at(s, pat, k) && forall|j: int|
            k < j <= i ==> !occurs_at(s, pat, j),
        rfind_from(s, pat, i) is None ==> forall|j: int| j <= i ==> !occurs_at(s, pat, j),
    decreases i + 1,
{
    if i < 0 {
    } else if occurs_at(s, pat, i) {
    } else {
        lemma_rfind_from(s, pat, i - 1);
    }
}

/// Whether `pat` stands in `s` at position `i`.
pub fn occurs_at_exec(s: &Vec<char>, pat: &Vec<char>, i: usize) -> (b: bool)
    ensures
        b == occurs_at(s@, pat@, i as int),
{
    if i > s.len() || pat.len() > s.len() - i {
        return false;
    }
    let mut j: usize = 0;
    while j < pat.len()
        invariant
            i + pat@.len() <= s@.len(),
            j <= pat@.len(),
            s@.subrange(i as int, i + j) == pat@.subrange(0, j as int),
        decreases pat.len() - j,
    {
        assert(i + j < s.len());
        if s[i + j] != pat[j] {
            assert(s@.subrange(i as int, i + pat@.len())[j as int] != pat@[j as int]);
            return false;
        }
        assert(s@.subrange(i as int, i + j + 1) =~= s@.subrange(i as int, i + j).push(
            s@[i + j],
        ));
        assert(pat@.subrange(0, j + 1) =~= pat@.subrange(0, j as int).push(pat@[j as int]));
        j = j + 1;
    }
    assert(pat@.subrange(0, pat@.len() as int) =~= pat@);
    true
}

/// The first position at or after `from` where `pat` stands in `s`.
pub fn find_from_exec(s: &Vec<char>, pat: &Vec<char>, from: usize) -> (res: Option<usize>)
    ensures
        match res {
            Some(i) => find_from(s@, pat@, from as int) == Some(i as int),
            None => find_from(s@, pat@, from as int) is None,
        },
{
    let mut i: usize = from;
    loop
        invariant
            from <= i,
            find_from(s@, pat@, from as int) == find_from(s@, pat@, i as int),
        decreases s.len() + 1 - i,
    {
        if i > s.len() || pat.len() > s.len() - i {
            return None;
        }
        if occurs_at_exec(s, pat, i) {
            return Some(i);
        }
        if i == s.len() {
            assert(find_from(s@, pat@, i + 1) is None);
            return None;
        }
        i = i + 1;
    }
}

/// The last position where `pat` stands in `s`.
pub fn rfind_exec(s: &Vec<char>, pat: &Vec<char>) -> (res: Option<usize>)
    ensures
        match res {
            Some(i) => rfind(s@, pat@) == Some(i as int),
            None => rfind(s@, pat@) is None,
        },
{
    if pat.len() > s.len() {
        assert(rfind(s@, pat@) is None);
        return None;
    }
    let mut i: usize = s.len() - pat.len();
    loop
        invariant
            i + pat@.len() <= s@.len(),
            rfind(s@, pat@) == rfind_from(s@, pat@, i as int),
        decreases i,
    {
        if occurs_at_exec(s, pat, i) {
            return Some(i);
        }
        if i == 0 {
            assert(rfind_from(s@, pat@, -1) is None);
            return None;
        }
        i = i - 1;
    }
}

/// The text before and after the first occurrence of `pat`, if there is one.
pub open spec fn cut(s: Seq<char>, pat: Seq<char>) -> Option<(Seq<char>, Seq<char>)> {
    match find(s, pat) {
        Some(i) => Some((s.subrange(0, i), s.subrange(i + pat.len(), s.len() as int))),
        None => None,
    }
}

/// The text before and after the first occurrence of `pat`; without one,
/// the whole text and the empty text.
pub open spec fn cut_or_all(s: Seq<char>, pat: Seq<char>) -> (Seq<char>, Seq<char>) {
    match cut(s, pat) {
        Some(p) => p,
        None => (s, Seq::empty()),
    }
}

/// The models of an optional pair of character vectors.
pub open spec fn opt_pair_view(o: Option<(Vec<char>, Vec<char>)>) -> Option<(Seq<char>, Seq<char>)> {
    match o {
        Some(p) => Some((p.0@, p.1@)),
        None => None,
    }
}

/// Splits `s` at the first occurrence of `pat` (see `cut`).
pub fn cut_exec(s: &Vec<char>, pat: &str) -> (res: Option<(Vec<char>, Vec<char>)>)
    ensures
        opt_pair_view(res) == cut(s@, pat@),
{
    let p = chars_of(pat);
    let len = s.len();
    proof {
        lemma_find_from(s@, p@, 0);
    }
    match find_from_exec(s, &p, 0) {
        Some(i) => {
            assert(occurs_at(s@, p@, i as int));
            Some((slice_chars(s, 0, i), slice_chars(s, i + p.len(), len)))
        },
        None => None,
    }
}

/// Splits `s` at the first occurrence of `pat` (see `cut_or_all`).
pub fn cut_or_all_exec(s: &Vec<char>, pat: &str) -> (res: (Vec<char>, Vec<char>))
    ensures
        (res.0@, res.1@) == cut_or_all(s@, pat@),
{
    match cut_exec(s, pat) {
        Some(p) => p,
        None => (s.clone(), Vec::new()),
    }
}

/// The pieces of `s` between the occurrences of `sep`, in order: every
/// occurrence of `sep` ends a piece, and the text after the last one is
/// the last piece.
pub open spec fn split_on(s: Seq<char>, sep: char) -> Seq<Seq<char>>
    decreases s.len(),
{
    if s.len() == 0 {
        seq![Seq::<char>::empty()]
    } else {
        let init = split_on(s.drop_last(), sep);
        if s.last() == sep {
            init.push(Seq::<char>::empty())
        } else {
            init.update(init.len() - 1, init.last().push(s.last()))
        }
    }
}

/// `split_on` always yields at least one piece.
pub proof fn lemma_split_on_nonempty(s: Seq<char>, sep: char)
    ensures
        split_on(s, sep).len() >= 1,
    decreases s.len(),
{
    if s.len() > 0 {
        lemma_split_on_nonempty(s.drop_last(), sep);
    }
}

/// The views of a vector of character vectors.
pub open spec fn views(v: Seq<Vec<char>>) -> Seq<Seq<char>> {
    v.map_values(|p: Vec<char>| p@)
}

/// The pieces of `s` between the occurrences of `sep` (`str::split` on one
/// character).
pub fn split_on_exec(s: &Vec<char>, sep: char) -> (pieces: Vec<Vec<char>>)
    ensures
        views(pieces@) == split_on(s@, sep),
{
    let mut done: Vec<Vec<char>> = Vec::new();
    let mut cur: Vec<char> = Vec::new();
    let mut i: usize = 0;
    while i < s.len()
        invariant
            i <= s@.len(),
            split_on(s@.subrange(0, i as int), sep) == views(done@).push(cur@),
        decreases s.len() - i,
    {
        let ghost prev = s@.subrange(0, i as int);
        let c = s[i];
        assert(s@.subrange(0, i + 1).drop_last() =~= prev);
        proof {
            lemma_split_on_nonempty(prev, sep);
        }
        let ghost old_done = done@;
        let ghost old_cur = cur@;
        if c == sep {
            let piece = cur;
            done.push(piece);
            cur = Vec::new();
            assert(views(done@) =~= views(old_done).push(old_cur));
        } else {
            cur.push(c);
            assert(views(done@).push(cur@) =~= views(old_done).push(old_cur).update(
                views(old_done).len() as int,
                old_cur.push(c),
            ));
        }
        assert(s@.subrange(0, i + 1).last() == c);
        i = i + 1;
    }
    assert(s@.subrange(0, s@.len() as int) =~= s@);
    let ghost old_done = done@;
    let ghost old_cur = cur@;
    done.push(cur);
    assert(views(done@) =~= views(old_done).push(old_cur));
    done
}

/// A piece of a line split: one trailing carriage return is dropped.
pub open spec fn strip_cr(p: Seq<char>) -> Seq<char> {
    if p.len() > 0 && p.last() == '\r' {
        p.drop_last()
    } else {
        p
    }
}

/// The lines of `s` (`str::lines`): the text is split at each `'\n'`, a
/// `'\r'` right before a `'\n'` belongs to the line ending, a final line
/// ending is optional, and the empty text has no lines.
pub open spec fn lines(s: Seq<char>) -> Seq<Seq<char>> {
    let pieces = split_on(s, '\n');
    if s.len() == 0 {
        Seq::<Seq<char>>::empty()
    } else if s.last() == '\n' {
        pieces.drop_last().map_values(|p: Seq<char>| strip_cr(p))
    } else {
        pieces.drop_last().map_values(|p: Seq<char>| strip_cr(p)).push(pieces.last())
    }
}

/// Drops one trailing carriage return.
pub fn strip_cr_exec(p: &mut Vec<char>)
    ensures
        final(p)@ == strip_cr(old(p)@),
{
    let n = p.len();
    if n > 0 && p[n - 1] == '\r' {
        p.pop();
    }
}

/// The lines of `s` (`str::lines`).
pub fn lines_exec(s: &Vec<char>) -> (res: Vec<Vec<char>>)
    ensures
        views(res@) == lines(s@),
{
    let mut pieces = split_on_exec(s, '\n');
    proof {
        lemma_split_on_nonempty(s@, '\n');
    }
    let ghost all = views(pieces@);
    let mut res: Vec<Vec<char>> = Vec::new();
    if s.len() == 0 {
        assert(views(res@) =~= lines(s@));
        return res;
    }
    let last = pieces.pop().unwrap();
    assert(views(pieces@) =~= all.drop_last());
    let mut i: usize = 0;
    while i < pieces.len()
        invariant
            i <= pieces@.len(),
            views(pieces@) == all.drop_last(),
            views(res@) =~= all.drop_last().subrange(0, i as int).map_values(
                |p: Seq<char>| strip_cr(p),
            ),
        decreases pieces.len() - i,
    {
        let mut p = pieces[i].clone();
        strip_cr_exec(&mut p);
        let ghost old_res = views(res@);
        res.push(p);
        assert(views(res@) =~= old_res.push(p@));
        i = i + 1;
    }
    assert(all.drop_last().subrange(0, pieces@.len() as int) =~= all.drop_last());
    if s[s.len() - 1] != '\n' {
        let ghost old_res = views(res@);
        res.push(last);
        assert(views(res@) =~= old_res.push(all.last()));
    }
    res
}

/// Whether `c` has the Unicode `White_Space` property (`char::is_whitespace`).
pub open spec fn is_whitespace(c: char) -> bool {
    ||| ('\t' <= c && c <= '\r')
    ||| c == ' '
    ||| c == '\u{85}'
    ||| c == '\u{a0}'
    ||| c == '\u{1680}'
    ||| ('\u{2000}' <= c && c <= '\u{200a}')
    ||| c == '\u{2028}'
    ||| c == '\u{2029}'
    ||| c == '\u{202f}'
    ||| c == '\u{205f}'
    ||| c == '\u{3000}'
}

/// Whether `c` has the Unicode `White_Space` property.
pub fn is_whitespace_exec(c: char) -> (b: bool)
    ensures
        b == is_whitespace(c),
{
    ('\t' <= c && c <= '\r') || c == ' ' || c == '\u{85}' || c == '\u{a0}' || c == '\u{1680}'
        || ('\u{2000}' <= c && c <= '\u{200a}') || c == '\u{2028}' || c == '\u{2029}' || c
        == '\u{202f}' || c == '\u{205f}' || c == '\u{3000}'
}

/// The number of whitespace characters that `s` starts with.
pub open spec fn leading_ws(s: Seq<char>) -> nat
    decreases s.len(),
{
    if s.len() > 0 && is_whitespace(s[0]) {
        1 + leading_ws(s.drop_first())
    } else {
        0
    }
}

/// The number of whitespace characters that `s` ends with.
pub open spec fn trailing_ws(s: Seq<char>) -> nat
    decreases s.len(),
{
    if s.len() > 0 && is_whitespace(s.last()) {
        1 + trailing_ws(s.drop_last())
    } else {
        0
    }
}

/// `s` without its leading and trailing whitespace (`str::trim`).
pub open spec fn trim(s: Seq<char>) -> Seq<char> {
    let t = s.subrange(leading_ws(s) as int, s.len() as int);
    t.subrange(0, t.len() - trailing_ws(t))
}

/// Leading and trailing whitespace counts stay within the text.
pub proof fn lemma_ws_bounds(s: Seq<char>)
    ensures
        leading_ws(s) <= s.len(),
        trailing_ws(s) <= s.len(),
    decreases s.len(),
{
    if s.len() > 0 {
        lemma_ws_bounds(s.drop_first());
        lemma_ws_bounds(s.drop_last());
    }
}

/// `s` without its leading and trailing whitespace (`str::trim`).
pub fn trim_exec(s: &Vec<char>) -> (t: Vec<char>)
    ensures
        t@ == trim(s@),
{
    let n = s.len();
    let mut a: usize = 0;
    assert(s@.subrange(0, n as int) =~= s@);
    while a < n && is_whitespace_exec(s[a])
        invariant
            n == s@.len(),
            a <= n,
            leading_ws(s@) == a + leading_ws(s@.subrange(a as int, n as int)),
        decreases n - a,
    {
        assert(s@.subrange(a as int, n as int).drop_first() =~= s@.subrange(a + 1, n as int));
        a = a + 1;
    }
    if a < n {
        assert(s@.subrange(a as int, n as int)[0] == s@[a as int]);
    }
    assert(leading_ws(s@) == a);
    let t = slice_chars(s, a, n);
    let m = t.len();
    let mut b: usize = m;
    assert(t@.subrange(0, m as int) =~= t@);
    while b > 0 && is_whitespace_exec(t[b - 1])
        invariant
            m == t@.len(),
            b <= m,
            trailing_ws(t@) == (m - b) + trailing_ws(t@.subrange(0, b as int)),
        decreases b,
    {
        assert(t@.subrange(0, b as int).drop_last() =~= t@.subrange(0, b - 1));
        b = b - 1;
    }
    if b > 0 {
        assert(t@.subrange(0, b as int).last() == t@[b - 1]);
    }
    assert(trailing_ws(t@) == m - b);
    slice_chars(&t, 0, b)
}

/// Whether `c` is an ASCII decimal digit.
pub open spec fn is_digit(c: char) -> bool {
    '0' <= c && c <= '9'
}

/// The value of the decimal digit `c`.
pub open spec fn digit_value(c: char) -> nat {
    ((c as int) - ('0' as int)) as nat
}

/// Whether every character of `s` is a decimal digit.
pub open spec fn all_digits(s: Seq<char>) -> bool {
    forall|i: int| 0 <= i < s.len() ==> is_digit(#[trigger] s[i])
}

/// The value of the decimal digits `s`.
pub open spec fn digits_value(s: Seq<char>) -> nat
    decreases s.len(),
{
    if s.len() == 0 {
        0
    } else {
        digits_value(s.drop_last()) * 10 + digit_value(s.last())
    }
}

/// The value of the digits `s[from..]` when they are all digits, there is
/// at least one and the value is at most `limit`.
pub open spec fn bounded_digits(s: Seq<char>, from: int, limit: nat) -> Option<nat> {
    let d = s.subrange(from, s.len() as int);
    if 0 <= from < s.len() && all_digits(d) && digits_value(d) <= limit {
        Some(digits_value(d))
    } else {
        None
    }
}

/// The value of the digits `s[from..]` (see `bounded_digits`).
pub fn bounded_digits_exec(s: &Vec<char>, from: usize, limit: u64) -> (res: Option<u64>)
    ensures
        match res {
            Some(v) => bounded_digits(s@, from as int, limit as nat) == Some(v as nat),
            None => bounded_digits(s@, from as int, limit as nat) is None,
        },
{
    if from >= s.len() {
        return None;
    }
    let n = s.len();
    let cap: u128 = limit as u128 + 1;
    let mut acc: u128 = 0;
    let mut i: usize = from;
    while i < n
        invariant
            n == s@.len(),
            from <= i <= n,
            cap == limit + 1,
            all_digits(s@.subrange(from as int, i as int)),
            acc as int == if digits_value(s@.subrange(from as int, i as int)) < cap {
                digits_value(s@.subrange(from as int, i as int)) as int
            } else {
                cap as int
            },
        decreases n - i,
    {
        let c = s[i];
        if !('0' <= c && c <= '9') {
            assert(!all_digits(s@.subrange(from as int, n as int))) by {
                assert(s@.subrange(from as int, n as int)[i - from] == c);
            }
            return None;
        }
        let d: u128 = ((c as u32) - ('0' as u32)) as u128;
        let ghost prev = s@.subrange(from as int, i as int);
        assert(s@.subrange(from as int, i + 1).drop_last() =~= prev);
        let next = acc * 10 + d;
        acc = if next < cap { next } else { cap };
        i = i + 1;
        assert(all_digits(s@.subrange(from as int, i as int))) by {
            assert forall|k: int| 0 <= k < i - from implies is_digit(
                #[trigger] s@.subrange(from as int, i as int)[k],
            ) by {
                if k < i - 1 - from {
                    assert(s@.subrange(from as int, i as int)[k] == prev[k]);
                }
            }
        }
    }
    assert(s@.subrange(from as int, n as int) =~= s@.subrange(from as int, s@.len() as int));
    if acc < cap {
        Some(acc as u64)
    } else {
        None
    }
}

/// `u32::from_str`: an optional `'+'`, then at least one decimal digit,
/// with a value that fits.
pub open spec fn parse_u32(s: Seq<char>) -> Option<u32> {
    let from: int = if s.len() > 0 && s[0] == '+' { 1 } else { 0 };
    match bounded_digits(s, from, u32::MAX as nat) {
        Some(v) => Some(v as u32),
        None => None,
    }
}

/// `i32::from_str`: an optional sign, then at least one decimal digit,
/// with a value that fits.
pub open spec fn parse_i32(s: Seq<char>) -> Option<i32> {
    if s.len() > 0 && s[0] == '-' {
        match bounded_digits(s, 1, 0x8000_0000) {
            Some(v) => Some((-(v as int)) as i32),
            None => None,
        }
    } else {
        let from: int = if s.len() > 0 && s[0] == '+' { 1 } else { 0 };
        match bounded_digits(s, from, i32::MAX as nat) {
            Some(v) => Some(v as i32),
            None => None,
        }
    }
}

/// `i64::from_str`: an optional sign, then at least one decimal digit,
/// with a value that fits.
pub open spec fn parse_i64(s: Seq<char>) -> Option<i64> {
    if s.len() > 0 && s[0] == '-' {
        match bounded_digits(s, 1, 0x8000_0000_0000_0000) {
            Some(v) => Some((-(v as int)) as i64),
            None => None,
        }
    } else {
        let from: int = if s.len() > 0 && s[0] == '+' { 1 } else { 0 };
        match bounded_digits(s, from, i64::MAX as nat) {
            Some(v) => Some(v as i64),
            None => None,
        }
    }
}

/// `u32::from_str`.
pub fn parse_u32_exec(s: &Vec<char>) -> (res: Option<u32>)
    ensures
        res == parse_u32(s@),
{
    let from: usize = if s.len() > 0 && s[0] == '+' { 1 } else { 0 };
    match bounded_digits_exec(s, from, 0xffff_ffff) {
        Some(v) => Some(v as u32),
        None => None,
    }
}

/// `i32::from_str`.
pub fn parse_i32_exec(s: &Vec<char>) -> (res: Option<i32>)
    ensures
        res == parse_i32(s@),
{
    if s.len() > 0 && s[0] == '-' {
        match bounded_digits_exec(s, 1, 0x8000_0000) {
            Some(v) => {
                let w: i64 = v as i64;
                Some((-w) as i32)
            },
            None => None,
        }
    } else {
        let from: usize = if s.len() > 0 && s[0] == '+' { 1 } else { 0 };
        match bounded_digits_exec(s, from, 0x7fff_ffff) {
            Some(v) => Some(v as i32),
            None => None,
        }
    }
}

/// `i64::from_str`.
pub fn parse_i64_exec(s: &Vec<char>) -> (res: Option<i64>)
    ensures
        res == parse_i64(s@),
{
    if s.len() > 0 && s[0] == '-' {
        match bounded_digits_exec(s, 1, 0x8000_0000_0000_0000) {
            Some(v) => {
                let w: i128 = v as i128;
                Some((-w) as i64)
            },
            None => None,
        }
    } else {
        let from: usize = if s.len() > 0 && s[0] == '+' { 1 } else { 0 };
        match bounded_digits_exec(s, from, 0x7fff_ffff_ffff_ffff) {
            Some(v) => Some(v as i64),
            None => None,
        }
    }
}

/// The character of the decimal digit `d`.
pub open spec fn digit_char(d: nat) -> char {
    if d == 0 {
        '0'
    } else if d == 1 {
        '1'
    } else if d == 2 {
        '2'
    } else if d == 3 {
        '3'
    } else if d == 4 {
        '4'
    } else if d == 5 {
        '5'
    } else if d == 6 {
        '6'
    } else if d == 7 {
        '7'
    } else if d == 8 {
        '8'
    } else {
        '9'
    }
}

/// The decimal digits of `n`, most significant first, without leading zeros.
pub open spec fn decimal(n: nat) -> Seq<char>
    decreases n,
{
    if n < 10 {
        seq![digit_char(n)]
    } else {
        decimal(n / 10).push(digit_char(n % 10))
    }
}

/// The decimal text of the integer `n`: a `'-'` before the digits of a
/// negative number.
pub open spec fn decimal_int(n: int) -> Seq<char> {
    if n < 0 {
        seq!['-'] + decimal((-n) as nat)
    } else {
        decimal(n as nat)
    }
}

/// The character of the decimal digit `d`.
pub fn digit_char_exec(d: u64) -> (c: char)
    requires
        d < 10,
    ensures
        c == digit_char(d as nat),
{
    if d == 0 {
        '0'
    } else if d == 1 {
        '1'
    } else if d == 2 {
        '2'
    } else if d == 3 {
        '3'
    } else if d == 4 {
        '4'
    } else if d == 5 {
        '5'
    } else if d == 6 {
        '6'
    } else if d == 7 {
        '7'
    } else if d == 8 {
        '8'
    } else {
        '9'
    }
}

/// The decimal digits of `n`.
pub fn decimal_exec(n: u64) -> (v: Vec<char>)
    ensures
        v@ == decimal(n as nat),
    decreases n,
{
    if n < 10 {
        let mut v: Vec<char> = Vec::new();
        v.push(digit_char_exec(n));
        assert(v@ =~= seq![digit_char(n as nat)]);
        v
    } else {
        let mut v = decimal_exec(n / 10);
        v.push(digit_char_exec(n % 10));
        v
    }
}

/// The decimal text of `n`.
pub fn decimal_i64_exec(n: i64) -> (v: Vec<char>)
    ensures
        v@ == decimal_int(n as int),
{
    if n < 0 {
        let m: u64 = (-(n as i128)) as u64;
        let mut v: Vec<char> = Vec::new();
        v.push('-');
        let d = decimal_exec(m);
        extend_chars(&mut v, &d);
        assert(v@ =~= seq!['-'] + decimal(m as nat));
        v
    } else {
        decimal_exec(n as u64)
    }
}


/// Whether the character `c` stands nowhere in `s`.
pub open spec fn lacks(s: Seq<char>, c: char) -> bool {
    forall|i: int| 0 <= i < s.len() ==> s[i] != c
}

/// Cutting at a character splits the text at its first occurrence: a text
/// made of a part without `c`, then `c`, then anything, is cut into those
/// two parts; a text without `c` is not cut and is kept whole by
/// `cut_or_all`.
pub proof fn law_cut_at_first_char(a: Seq<char>, c: char, b: Seq<char>)
    ensures
        lacks(a, c) ==> cut(a + seq![c] + b, seq![c]) == Some((a, b)),
        lacks(a, c) ==> cut_or_all(a + seq![c] + b, seq![c]) == (a, b),
        lacks(a, c) ==> cut(a, seq![c]) is None,
        lacks(a, c) ==> cut_or_all(a, seq![c]) == (a, Seq::<char>::empty()),
{
    let pat = seq![c];
    let s = a + pat + b;
    if lacks(a, c) {
        lemma_find_from(s, pat, 0);
        assert(s.subrange(a.len() as int, a.len() + 1int) =~= pat);
        assert(occurs_at(s, pat, a.len() as int));
        let i = find(s, pat)->Some_0;
        assert(s.subrange(i, i + 1)[0] == s[i]);
        assert(i == a.len());
        assert(s.subrange(0, i) =~= a);
        assert(s.subrange(i + 1, s.len() as int) =~= b);
        lemma_find_from(a, pat, 0);
        if find(a, pat) is Some {
            let k = find(a, pat)->Some_0;
            assert(a.subrange(k, k + 1)[0] == a[k]);
        }
    }
}


/// A text joined from two texts without `c` has no `c` either.
pub proof fn lemma_lacks_concat(a: Seq<char>, b: Seq<char>, c: char)
    requires
        lacks(a, c),
        lacks(b, c),
    ensures
        lacks(a + b, c),
{
    assert forall|i: int| 0 <= i < (a + b).len() implies (a + b)[i] != c by {
        if i >= a.len() {
            assert((a + b)[i] == b[i - a.len()]);
        }
    }
}


/// The text that an optional piece takes: the marker and the
/// text where the piece is there, nothing where it is not.
pub open spec fn optional_piece(present: bool, marker: char, t: Seq<char>) -> Seq<char> {
    if present {
        seq![marker] + t
    } else {
        Seq::empty()
    }
}


/// The pieces joined back together with `sep` between each two.
pub open spec fn join_with(ps: Seq<Seq<char>>, sep: char) -> Seq<char>
    decreases ps.len(),
{
    if ps.len() == 0 {
        Seq::<char>::empty()
    } else if ps.len() == 1 {
        ps[0]
    } else {
        join_with(ps.drop_last(), sep) + seq![sep] + ps.last()
    }
}

/// Splitting at a character cuts the text into pieces that hold no such
/// character and that, joined back with it, give the text again; so there
/// is always at least one piece.
pub proof fn law_split_on_joins_back(s: Seq<char>, sep: char)
    ensures
        split_on(s, sep).len() >= 1,
        join_with(split_on(s, sep), sep) == s,
        forall|i: int| 0 <= i < split_on(s, sep).len() ==> lacks(#[trigger] split_on(s, sep)[i], sep),
    decreases s.len(),
{
    if s.len() == 0 {
        assert(split_on(s, sep)[0] =~= s);
    } else {
        let d = s.drop_last();
        let c = s.last();
        law_split_on_joins_back(d, sep);
        let init = split_on(d, sep);
        let r = split_on(s, sep);
        if c == sep {
            assert(r.drop_last() =~= init);
            assert(join_with(r, sep) =~= d + seq![sep] + Seq::<char>::empty());
            assert(s =~= d + seq![sep]);
            assert forall|i: int| 0 <= i < r.len() implies lacks(#[trigger] r[i], sep) by {
                if i < r.len() - 1 {
                    assert(r[i] == init[i]);
                }
            }
        } else {
            let k = init.len() - 1;
            if init.len() == 1 {
                assert(join_with(r, sep) == r[0]);
                assert(r[0] =~= init[0].push(c));
                assert(s =~= d.push(c));
            } else {
                assert(r.drop_last() =~= init.drop_last());
                assert(join_with(r, sep) == join_with(init.drop_last(), sep) + seq![sep] + init.last().push(c));
                assert(join_with(r, sep) =~= join_with(init, sep).push(c));
                assert(s =~= d.push(c));
            }
            assert forall|i: int| 0 <= i < r.len() implies lacks(#[trigger] r[i], sep) by {
                if i < k {
                    assert(r[i] == init[i]);
                } else {
                    assert(r[i] =~= init[k].push(c));
                    assert forall|j: int| 0 <= j < r[i].len() implies r[i][j] != sep by {
                        if j < init[k].len() {
                            assert(lacks(init[k], sep));
                        }
                    }
                }
            }
        }
    }
}


/// The character of a decimal digit is a digit of that value.
proof fn lemma_digit_char(d: nat)
    requires
        d < 10,
    ensures
        is_digit(digit_char(d)),
        digit_value(digit_char(d)) == d,
{
}

/// The decimal text of a number is made of digits, at least one, whose
/// value is the number.
proof fn lemma_decimal_digits(n: nat)
    ensures
        decimal(n).len() >= 1,
        all_digits(decimal(n)),
        digits_value(decimal(n)) == n,
    decreases n,
{
    lemma_digit_char(n % 10);
    if n < 10 {
        assert(n % 10 == n);
        assert(decimal(n).drop_last() =~= Seq::<char>::empty());
        assert(decimal(n).last() == digit_char(n));
        assert(digits_value(decimal(n)) == digits_value(Seq::<char>::empty()) * 10 + digit_value(digit_char(n)));
    } else {
        lemma_decimal_digits(n / 10);
        let d = decimal(n);
        assert(d.drop_last() =~= decimal(n / 10));
        assert forall|i: int| 0 <= i < d.len() implies is_digit(#[trigger] d[i]) by {
            if i < d.len() - 1 {
                assert(d[i] == decimal(n / 10)[i]);
            }
        }
        assert(d.last() == digit_char(n % 10));
        assert(digits_value(d) == digits_value(decimal(n / 10)) * 10 + digit_value(digit_char(n % 10)));
        assert(n == (n / 10) * 10 + n % 10) by (nonlinear_arith);
    }
}

/// A number written in decimal reads back as itself: `u32::from_str` of
/// the text of a `u32`, and `i64::from_str` of the text of an `i64`, give
/// the number again.
pub proof fn law_decimal_reads_back(n: u32, i: i64)
    ensures
        parse_u32(decimal(n as nat)) == Some(n),
        parse_i64(decimal_int(i as int)) == Some(i),
{
    lemma_decimal_digits(n as nat);
    let s = decimal(n as nat);
    assert(is_digit(s[0]));
    assert(s.subrange(0, s.len() as int) =~= s);
    if i < 0 {
        let m = (-(i as int)) as nat;
        lemma_decimal_digits(m);
        let t = decimal_int(i as int);
        assert(t.subrange(1, t.len() as int) =~= decimal(m));
    } else {
        let m = i as nat;
        lemma_decimal_digits(m);
        let t = decimal(m);
        assert(is_digit(t[0]));
        assert(t.subrange(0, t.len() as int) =~= t);
    }
}


/// Whether every character of `s` is whitespace.
pub open spec fn all_whitespace(s: Seq<char>) -> bool {
    forall|i: int| 0 <= i < s.len() ==> is_whitespace(#[trigger] s[i])
}

/// The leading whitespace is whitespace, and what follows it does not
/// start with whitespace.
proof fn lemma_leading_ws(s: Seq<char>)
    ensures
        leading_ws(s) <= s.len(),
        all_whitespace(s.subrange(0, leading_ws(s) as int)),
        leading_ws(s) < s.len() ==> !is_whitespace(s[leading_ws(s) as int]),
    decreases s.len(),
{
    if s.len() > 0 && is_whitespace(s[0]) {
        let r = s.drop_first();
        lemma_leading_ws(r);
        let k = leading_ws(s) as int;
        assert forall|i: int| 0 <= i < k implies is_whitespace(#[trigger] s.subrange(0, k)[i]) by {
            if i > 0 {
                assert(s.subrange(0, k)[i] == r.subrange(0, k - 1)[i - 1]);
            }
        }
        if k < s.len() {
            assert(s[k] == r[k - 1]);
        }
    }
}

/// The trailing whitespace is whitespace, and what stands before it does
/// not end with whitespace.
proof fn lemma_trailing_ws(s: Seq<char>)
    ensures
        trailing_ws(s) <= s.len(),
        all_whitespace(s.subrange(s.len() - trailing_ws(s), s.len() as int)),
        trailing_ws(s) < s.len() ==> !is_whitespace(s[s.len() - trailing_ws(s) - 1]),
    decreases s.len(),
{
    if s.len() > 0 && is_whitespace(s.last()) {
        let r = s.drop_last();
        lemma_trailing_ws(r);
        let k = trailing_ws(s) as int;
        let n = s.len() as int;
        assert forall|i: int| 0 <= i < k implies is_whitespace(#[trigger] s.subrange(n - k, n)[i]) by {
            if i < k - 1 {
                assert(s.subrange(n - k, n)[i] == r.subrange(n - 1 - (k - 1), n - 1)[i]);
            }
        }
        if k < n {
            assert(s[n - k - 1] == r[n - 1 - (k - 1) - 1]);
        }
    }
}

/// Trimming (`str::trim`) takes off exactly the whitespace at both ends:
/// the text is whitespace, then the trimmed text, then whitespace, and the
/// trimmed text neither starts nor ends with whitespace.
pub proof fn law_trim_takes_off_end_whitespace(s: Seq<char>)
    ensures
        exists|a: Seq<char>, b: Seq<char>|
            all_whitespace(a) && all_whitespace(b) && s == a + trim(s) + b,
        trim(s).len() > 0 ==> !is_whitespace(trim(s)[0]) && !is_whitespace(trim(s).last()),
{
    lemma_leading_ws(s);
    let k = leading_ws(s) as int;
    let t = s.subrange(k, s.len() as int);
    lemma_trailing_ws(t);
    let m = t.len() - trailing_ws(t);
    let a = s.subrange(0, k);
    let b = t.subrange(m, t.len() as int);
    assert(s =~= a + trim(s) + b);
    if trim(s).len() > 0 {
        assert(trim(s)[0] == s[k]);
        assert(trim(s).last() == t[m - 1]);
    }
}


/// Pieces whose joining holds no `c` hold no `c` themselves.
proof fn lemma_join_lacks(ps: Seq<Seq<char>>, sep: char, c: char)
    requires
        lacks(join_with(ps, sep), c),
    ensures
        forall|i: int| 0 <= i < ps.len() ==> lacks(#[trigger] ps[i], c),
    decreases ps.len(),
{
    if ps.len() >= 2 {
        let d = ps.drop_last();
        let j = join_with(ps, sep);
        let jd = join_with(d, sep);
        assert forall|k: int| 0 <= k < jd.len() implies jd[k] != c by {
            assert(j[k] == jd[k]);
        }
        lemma_join_lacks(d, sep, c);
        assert forall|i: int| 0 <= i < ps.len() implies lacks(#[trigger] ps[i], c) by {
            if i < ps.len() - 1 {
                assert(ps[i] == d[i]);
            } else {
                assert forall|k: int| 0 <= k < ps[i].len() implies ps[i][k] != c by {
                    assert(j[jd.len() + 1 + k] == ps[i][k]);
                }
            }
        }
    }
}

/// The lines of a text (`str::lines`) hold no line feed, and where the
/// text holds no carriage return, joining them with line feeds gives the
/// text again, but for a final line feed: no line is lost or split.
pub proof fn law_lines_join_back(t: Seq<char>)
    ensures
        forall|i: int| 0 <= i < lines(t).len() ==> lacks(#[trigger] lines(t)[i], '\n'),
        lacks(t, '\r') ==> t == join_with(lines(t), '\n') + (if t.len() > 0 && t.last() == '\n' {
            seq!['\n']
        } else {
            Seq::<char>::empty()
        }),
{
    law_split_on_joins_back(t, '\n');
    let ps = split_on(t, '\n');
    let ls = lines(t);
    if t.len() > 0 {
        let n = ps.len() as int;
        assert forall|i: int| 0 <= i < ls.len() implies lacks(#[trigger] ls[i], '\n') by {
            if i < n - 1 {
                assert(ls[i] == strip_cr(ps[i]));
                assert(lacks(ps[i], '\n'));
                if ps[i].len() > 0 && ps[i].last() == '\r' {
                    assert forall|k: int| 0 <= k < ls[i].len() implies ls[i][k] != '\n' by {
                        assert(ls[i][k] == ps[i][k]);
                    }
                }
            } else {
                assert(ls[i] == ps[n - 1]);
            }
        }
        if lacks(t, '\r') {
            lemma_join_lacks(ps, '\n', '\r');
            assert forall|i: int| 0 <= i < n - 1 implies strip_cr(#[trigger] ps[i]) == ps[i] by {
                assert(lacks(ps[i], '\r'));
                if ps[i].len() > 0 {
                    assert(ps[i][ps[i].len() - 1] != '\r');
                }
            }
            let body = ps.drop_last().map_values(|p: Seq<char>| strip_cr(p));
            assert(body =~= ps.drop_last());
            if t.last() == '\n' {
                lemma_split_on_nonempty(t.drop_last(), '\n');
                assert(ps.last() =~= Seq::<char>::empty());
                assert(ls =~= ps.drop_last());
                assert(ps.len() >= 2);
                assert(join_with(ps, '\n') == join_with(ps.drop_last(), '\n') + seq!['\n'] + ps.last());
                assert(t =~= join_with(ls, '\n') + seq!['\n']);
            } else {
                assert(ls =~= ps);
                assert(t =~= join_with(ls, '\n') + Seq::<char>::empty());
            }
        }
    } else {
        assert(ls.len() == 0);
        assert(join_with(ls, '\n') =~= t);
        assert(t =~= join_with(ls, '\n') + Seq::<char>::empty());
    }
}

} // verus!
