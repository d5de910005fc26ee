//! Text as sequences of Unicode scalar values: conversion between strings and
//! character vectors, substring search, and the small string operations the
//! rest of the crate is built from.

use vstd::prelude::*;
use vstd::string::*;

verus! {

/// `String::push` appends one character to the end of the string.
pub assume_specification[ String::push ](s: &mut String, c: char)
    ensures
        final(s)@ == old(s)@.push(c),
;

/// `pat` occurs in `s` starting at position `i`.
pub open spec fn matches_at(s: Seq<char>, pat: Seq<char>, i: int) -> bool {
    0 <= i && i + pat.len() <= s.len() && s.subrange(i, i + pat.len()) == pat
}

/// Position of the first occurrence of `pat` in `s` at or after `from`.
pub open spec fn first_match_from(s: Seq<char>, pat: Seq<char>, from: int) -> Option<int>
    decreases s.len() - from + 1,
{
    if from < 0 || from + pat.len() > s.len() {
        None
    } else if matches_at(s, pat, from) {
        Some(from)
    } else {
        first_match_from(s, pat, from + 1)
    }
}

/// Position of the first occurrence of `pat` in `s`.
pub open spec fn first_match(s: Seq<char>, pat: Seq<char>) -> Option<int> {
    first_match_from(s, pat, 0)
}

/// `pat` occurs somewhere in `s`.
pub open spec fn contains(s: Seq<char>, pat: Seq<char>) -> bool {
    first_match(s, pat) is Some
}

/// `s` begins with `pat`.
pub open spec fn starts_with(s: Seq<char>, pat: Seq<char>) -> bool {
    matches_at(s, pat, 0)
}

/// `s` ends with `pat`.
pub open spec fn ends_with(s: Seq<char>, pat: Seq<char>) -> bool {
    matches_at(s, pat, s.len() - pat.len())
}

/// What `first_match_from` returns: the least matching position at or after
/// `from`, or `None` when no position at or after `from` matches.
pub proof fn lemma_first_match_from(s: Seq<char>, pat: Seq<char>, from: int)
    requires
        0 <= from,
    ensures
        match first_match_from(s, pat, from) {
            Some(i) => from <= i && matches_at(s, pat, i) && forall|j: int|
                from <= j < i ==> !matches_at(s, pat, j),
            None => forall|j: int| from <= j ==> !matches_at(s, pat, j),
        },
    decreases s.len() - from + 1,
{
    if from + pat.len() > s.len() {
    } else if matches_at(s, pat, from) {
    } else {
        lemma_first_match_from(s, pat, from + 1);
    }
}

/// A matching position with no match between `from` and it is the first match.
pub proof fn lemma_first_match_is(s: Seq<char>, pat: Seq<char>, from: int, i: int)
    requires
        0 <= from <= i,
        matches_at(s, pat, i),
        forall|j: int| from <= j < i ==> !matches_at(s, pat, j),
    ensures
        first_match_from(s, pat, from) == Some(i),
    decreases i - from,
{
    if from < i {
        lemma_first_match_is(s, pat, from + 1, i);
    }
}

/// Without any matching position at or after `from` there is no first match.
pub proof fn lemma_first_match_none(s: Seq<char>, pat: Seq<char>, from: int)
    requires
        0 <= from,
        forall|j: int| from <= j ==> !matches_at(s, pat, j),
    ensures
        first_match_from(s, pat, from) is None,
    decreases s.len() - from + 1,
{
    if from + pat.len() <= s.len() {
        lemma_first_match_none(s, pat, from + 1);
    }
}

/// Searching a suffix of `s` is searching `s` from the suffix's start.
pub proof fn lemma_first_match_skip(s: Seq<char>, pat: Seq<char>, from: int)
    requires
        0 <= from <= s.len(),
    ensures
        first_match(s.skip(from), pat) == match first_match_from(s, pat, from) {
            Some(i) => Some(i - from),
            None => None,
        },
{
    let t = s.skip(from);
    assert forall|j: int| 0 <= j implies matches_at(t, pat, j) == matches_at(s, pat, from + j) by {
        if j + pat.len() <= t.len() {
            assert(t.subrange(j, j + pat.len()) =~= s.subrange(from + j, from + j + pat.len()));
        }
    }
    lemma_first_match_from(s, pat, from);
    match first_match_from(s, pat, from) {
        Some(i) => {
            assert(matches_at(t, pat, i - from));
            assert forall|j: int| 0 <= j < i - from implies !matches_at(t, pat, j) by {
                assert(!matches_at(s, pat, from + j));
            }
            lemma_first_match_is(t, pat, 0, i - from);
        },
        None => {
            assert forall|j: int| 0 <= j implies !matches_at(t, pat, j) by {
                assert(!matches_at(s, pat, from + j));
            }
            lemma_first_match_none(t, pat, 0);
        },
    }
}

/// The characters of a string, in order.
pub fn to_chars(s: &str) -> (v: Vec<char>)
    ensures
        v@ == s@,
{
    broadcast use vstd::string::group_string_axioms;

    let mut v: Vec<char> = Vec::new();
    for c in it: s.chars()
        invariant
            it.seq() == s@,
            v@ == s@.take(it.index() as int),
    {
        v.push(c);
        assert(s@.take(it.index() + 1) == s@.take(it.index() as int).push(s@[it.index() as int]));
    }
    assert(s@.take(s@.len() as int) == s@);
    v
}

/// The string made of the characters `v[from..to]`.
pub fn slice_string(v: &Vec<char>, from: usize, to: usize) -> (s: String)
    requires
        from <= to <= v.len(),
    ensures
        s@ == v@.subrange(from as int, to as int),
{
    let mut s = String::new();
    let mut i: usize = from;
    while i < to
        invariant
            from <= i <= to <= v.len(),
            s@ == v@.subrange(from as int, i as int),
        decreases to - i,
    {
        s.push(v[i]);
        i += 1;
        assert(v@.subrange(from as int, i as int) == v@.subrange(from as int, i - 1).push(
            v@[i - 1],
        ));
    }
    s
}

/// The string made of all the characters of `v`.
pub fn from_chars(v: &Vec<char>) -> (s: String)
    ensures
        s@ == v@,
{
    let s = slice_string(v, 0, v.len());
    assert(v@.subrange(0, v.len() as int) == v@);
    s
}

/// Appends the characters of `src` to `dst`.
pub fn append_chars(dst: &mut Vec<char>, src: &Vec<char>)
    ensures
        final(dst)@ == old(dst)@ + src@,
{
    let mut i: usize = 0;
    while i < src.len()
        invariant
            i <= src.len(),
            dst@ == old(dst)@ + src@.take(i as int),
        decreases src.len() - i,
    {
        dst.push(src[i]);
        i += 1;
        assert(src@.take(i as int) == src@.take(i - 1).push(src@[i - 1]));
    }
    assert(src@.take(src.len() as int) == src@);
}

/// The characters `v[from..to]` as a vector of their own.
pub fn slice_chars(v: &Vec<char>, from: usize, to: usize) -> (out: Vec<char>)
    requires
        from <= to <= v.len(),
    ensures
        out@ == v@.subrange(from as int, to as int),
{
    let mut out: Vec<char> = Vec::new();
    let mut i: usize = from;
    while i < to
        invariant
            from <= i <= to <= v.len(),
            out@ == v@.subrange(from as int, i as int),
        decreases to - i,
    {
        out.push(v[i]);
        i += 1;
        assert(v@.subrange(from as int, i as int) == v@.subrange(from as int, i - 1).push(
            v@[i - 1],
        ));
    }
    out
}

/// Whether two character vectors hold the same text.
pub fn chars_eq(a: &Vec<char>, b: &Vec<char>) -> (same: bool)
    ensures
        same == (a@ == b@),
{
    if a.len() != b.len() {
        return false;
    }
    let mut i: usize = 0;
    while i < a.len()
        invariant
            i <= a.len(),
            a.len() == b.len(),
            forall|k: int| 0 <= k < i ==> a[k] == b[k],
        decreases a.len() - i,
    {
        if a[i] != b[i] {
            return false;
        }
        i += 1;
    }
    assert(a@ =~= b@);
    true
}

/// Whether two strings hold the same text.
pub fn text_eq(a: &str, b: &str) -> (same: bool)
    ensures
        same == (a@ == b@),
{
    let x = to_chars(a);
    let y = to_chars(b);
    chars_eq(&x, &y)
}

/// Whether `pat` occurs in `hay` at position `i`.
pub fn matches_at_exec(hay: &Vec<char>, pat: &Vec<char>, i: usize) -> (found: bool)
    ensures
        found == matches_at(hay@, pat@, i as int),
{
    if pat.len() > hay.len() || i > hay.len() - pat.len() {
        return false;
    }
    let mut k: usize = 0;
    while k < pat.len()
        invariant
            k <= pat.len(),
            i + pat.len() <= hay.len(),
            forall|j: int| 0 <= j < k ==> hay[i + j] == pat[j],
        decreases pat.len() - k,
    {
        if hay[i + k] != pat[k] {
            assert(hay@.subrange(i as int, i + pat.len())[k as int] != pat@[k as int]);
            return false;
        }
        k += 1;
    }
    assert(hay@.subrange(i as int, i + pat.len()) =~= pat@);
    true
}

/// Position of the first occurrence of `pat` in `hay` at or after `from`.
pub fn find_from(hay: &Vec<char>, pat: &Vec<char>, from: usize) -> (found: Option<usize>)
    ensures
        match found {
            Some(i) => first_match_from(hay@, pat@, from as int) == Some(i as int),
            None => first_match_from(hay@, pat@, from as int) is None,
        },
{
    if pat.len() > hay.len() || from > hay.len() - pat.len() {
        return None;
    }
    let last: usize = hay.len() - pat.len();
    let mut i: usize = from;
    while i <= last
        invariant
            from <= i <= last + 1,
            last == hay.len() - pat.len(),
            forall|j: int| from <= j < i ==> !matches_at(hay@, pat@, j),
        decreases last + 1 - i,
    {
        if matches_at_exec(hay, pat, i) {
            proof {
                lemma_first_match_is(hay@, pat@, from as int, i as int);
            }
            return Some(i);
        }
        if i == last {
            proof {
                lemma_first_match_none(hay@, pat@, from as int);
            }
            return None;
        }
        i += 1;
    }
    proof {
        lemma_first_match_none(hay@, pat@, from as int);
    }
    None
}

/// Whether `pat` occurs somewhere in `hay`.
pub fn contains_chars(hay: &Vec<char>, pat: &Vec<char>) -> (found: bool)
    ensures
        found == contains(hay@, pat@),
{
    find_from(hay, pat, 0).is_some()
}

/// Whether `c` is white space: a character with the Unicode property
/// `White_Space`.
pub open spec fn is_space(c: char) -> bool {
    let u = c as u32;
    (0x09 <= u <= 0x0D) || u == 0x20 || u == 0x85 || u == 0xA0 || u == 0x1680 || (0x2000 <= u
        <= 0x200A) || u == 0x2028 || u == 0x2029 || u == 0x202F || u == 0x205F || u == 0x3000
}

/// Whether `c` is white space.
pub fn is_space_char(c: char) -> (space: bool)
    ensures
        space == is_space(c),
{
    let u: u32 = c as u32;
    (0x09 <= u && u <= 0x0D) || u == 0x20 || u == 0x85 || u == 0xA0 || u == 0x1680 || (0x2000
        <= u && u <= 0x200A) || u == 0x2028 || u == 0x2029 || u == 0x202F || u == 0x205F || u
        == 0x3000
}

/// Length of `s` without its trailing white space.
pub open spec fn trimmed_end(s: Seq<char>) -> int
    decreases s.len(),
{
    if s.len() == 0 {
        0
    } else if is_space(s.last()) {
        trimmed_end(s.drop_last())
    } else {
        s.len() as int
    }
}

/// Number of leading white-space characters of `s`.
pub open spec fn leading_space(s: Seq<char>) -> int
    decreases s.len(),
{
    if s.len() == 0 {
        0
    } else if is_space(s[0]) {
        1 + leading_space(s.drop_first())
    } else {
        0
    }
}

/// `s` without its trailing white space.
pub open spec fn trim_end(s: Seq<char>) -> Seq<char> {
    s.take(trimmed_end(s))
}

/// `s` without its leading white space.
pub open spec fn trim_start(s: Seq<char>) -> Seq<char> {
    s.skip(leading_space(s))
}

/// `s` without leading and trailing white space.
pub open spec fn trim(s: Seq<char>) -> Seq<char> {
    trim_end(trim_start(s))
}

/// The count of leading white space lies within the text.
pub proof fn lemma_leading_space(s: Seq<char>)
    ensures
        0 <= leading_space(s) <= s.len(),
        leading_space(s) < s.len() ==> !is_space(s[leading_space(s)]),
        forall|i: int| 0 <= i < leading_space(s) ==> is_space(s[i]),
    decreases s.len(),
{
    if s.len() > 0 && is_space(s[0]) {
        lemma_leading_space(s.drop_first());
        assert forall|i: int| 0 <= i < leading_space(s) implies is_space(s[i]) by {
            if i > 0 {
                assert(s[i] == s.drop_first()[i - 1]);
            }
        }
    }
}

/// Trailing white space ends where the last other character stands.
proof fn lemma_trimmed_end_is(s: Seq<char>, n: int)
    requires
        0 <= n <= s.len(),
        n > 0 ==> !is_space(s[n - 1]),
        forall|i: int| n <= i < s.len() ==> is_space(s[i]),
    ensures
        trimmed_end(s) == n,
    decreases s.len(),
{
    if s.len() > 0 && n < s.len() {
        lemma_trimmed_end_is(s.drop_last(), n);
    }
}

/// Leading white space ends where the first other character stands.
proof fn lemma_leading_space_is(s: Seq<char>, n: int)
    requires
        0 <= n <= s.len(),
        n < s.len() ==> !is_space(s[n]),
        forall|i: int| 0 <= i < n ==> is_space(s[i]),
    ensures
        leading_space(s) == n,
    decreases s.len(),
{
    if s.len() > 0 && n > 0 {
        let t = s.drop_first();
        assert forall|i: int| 0 <= i < n - 1 implies is_space(t[i]) by {
            assert(t[i] == s[i + 1]);
        }
        lemma_leading_space_is(t, n - 1);
    }
}

/// Where the trailing white space of `v[..to]` begins.
pub fn trim_end_index(v: &Vec<char>, to: usize) -> (n: usize)
    requires
        to <= v.len(),
    ensures
        n == trimmed_end(v@.take(to as int)),
        n <= to,
{
    let mut n: usize = to;
    while n > 0 && is_space_char(v[n - 1])
        invariant
            n <= to <= v.len(),
            forall|i: int| n <= i < to ==> is_space(v[i]),
        decreases n,
    {
        n -= 1;
    }
    proof {
        lemma_trimmed_end_is(v@.take(to as int), n as int);
    }
    n
}

/// Where the leading white space of `v` ends.
pub fn trim_start_index(v: &Vec<char>) -> (n: usize)
    ensures
        n == leading_space(v@),
        n <= v.len(),
{
    let mut n: usize = 0;
    while n < v.len() && is_space_char(v[n])
        invariant
            n <= v.len(),
            forall|i: int| 0 <= i < n ==> is_space(v[i]),
        decreases v.len() - n,
    {
        n += 1;
    }
    proof {
        lemma_leading_space_is(v@, n as int);
    }
    n
}

/// `s` without its trailing white space.
pub fn trim_end_string(s: &str) -> (out: String)
    ensures
        out@ == trim_end(s@),
{
    let v = to_chars(s);
    let n = trim_end_index(&v, v.len());
    assert(v@.take(v.len() as int) == v@);
    slice_string(&v, 0, n)
}

/// `s` without leading and trailing white space.
pub fn trim_string(s: &str) -> (out: String)
    ensures
        out@ == trim(s@),
{
    let v = to_chars(s);
    let from = trim_start_index(&v);
    let rest = slice_chars(&v, from, v.len());
    assert(rest@ == trim_start(s@));
    let n = trim_end_index(&rest, rest.len());
    assert(rest@.take(rest.len() as int) == rest@);
    slice_string(&rest, 0, n)
}

/// Whether `s` holds nothing but white space.
pub fn is_blank(s: &str) -> (blank: bool)
    ensures
        blank == (trim(s@).len() == 0),
{
    let t = trim_string(s);
    t.as_str().is_empty()
}

/// Whether `pat` occurs somewhere in `text`.
pub fn contains_text(text: &str, pat: &str) -> (found: bool)
    ensures
        found == contains(text@, pat@),
{
    let hay = to_chars(text);
    let needle = to_chars(pat);
    contains_chars(&hay, &needle)
}

/// Whether `text` begins with `pat`.
pub fn starts_with_text(text: &str, pat: &str) -> (found: bool)
    ensures
        found == starts_with(text@, pat@),
{
    let hay = to_chars(text);
    let needle = to_chars(pat);
    matches_at_exec(&hay, &needle, 0)
}

} // verus!
