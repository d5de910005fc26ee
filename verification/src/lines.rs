//! Lines of a text, and joining pieces of text with a separator.

use vstd::prelude::*;
use vstd::string::*;
use crate::text::{
    find_from, first_match, is_space, is_space_char, leading_space, lemma_first_match_from,
    lemma_first_match_skip, lemma_leading_space, slice_string, to_chars,
};

verus! {

/// The line-feed character as a pattern.
pub open spec fn newline() -> Seq<char> {
    seq!['\n']
}

/// A line without the carriage return that stood before its line feed.
pub open spec fn strip_cr(line: Seq<char>) -> Seq<char> {
    if line.len() > 0 && line.last() == '\r' {
        line.drop_last()
    } else {
        line
    }
}

/// The lines of `s`. A line ends at a line feed, which is not part of it,
/// nor is a carriage return right before the line feed. Text after the last
/// line feed is a line of its own unless it is empty.
pub open spec fn lines(s: Seq<char>) -> Seq<Seq<char>>
    decreases s.len(),
    via lines_decreases
{
    if s.len() == 0 {
        Seq::empty()
    } else {
        match first_match(s, newline()) {
            Some(i) => seq![strip_cr(s.take(i))] + lines(s.skip(i + 1)),
            None => seq![s],
        }
    }
}

#[via_fn]
proof fn lines_decreases(s: Seq<char>) {
    lemma_first_match_from(s, newline(), 0);
}

/// The pieces joined, with `sep` between each two.
pub open spec fn join(pieces: Seq<Seq<char>>, sep: Seq<char>) -> Seq<char>
    decreases pieces.len(),
{
    if pieces.len() == 0 {
        Seq::empty()
    } else if pieces.len() == 1 {
        pieces[0]
    } else {
        join(pieces.drop_last(), sep) + sep + pieces.last()
    }
}

/// The views of a list of strings.
pub open spec fn texts(v: Seq<String>) -> Seq<Seq<char>> {
    v.map_values(|s: String| s@)
}

/// The strings joined, with `sep` between each two.
pub fn join_strings(pieces: &Vec<String>, sep: &str) -> (out: String)
    ensures
        out@ == join(texts(pieces@), sep@),
{
    let mut out = String::new();
    let mut i: usize = 0;
    assert(texts(pieces@).take(0) =~= Seq::empty());
    while i < pieces.len()
        invariant
            i <= pieces.len(),
            out@ == join(texts(pieces@).take(i as int), sep@),
        decreases pieces.len() - i,
    {
        if i > 0 {
            out.append(sep);
        }
        out.append(pieces[i].as_str());
        i += 1;
        proof {
            let all = texts(pieces@);
            let now = all.take(i as int);
            assert(now.drop_last() =~= all.take(i - 1));
            assert(now.last() == pieces[i - 1]@);
            if i == 1 {
                assert(now[0] == pieces[0]@);
                assert(out@ =~= now[0]);
            }
        }
    }
    assert(texts(pieces@).take(pieces.len() as int) =~= texts(pieces@));
    out
}

/// The lines of `s`.
pub fn split_lines(s: &str) -> (out: Vec<String>)
    ensures
        texts(out@) == lines(s@),
{
    let v = to_chars(s);
    let mut nl: Vec<char> = Vec::new();
    nl.push('\n');
    assert(nl@ =~= newline());
    let mut out: Vec<String> = Vec::new();
    let mut pos: usize = 0;
    assert(v@.skip(0) =~= v@);
    assert(texts(out@) + lines(v@.skip(0)) =~= lines(v@));
    while pos < v.len()
        invariant
            pos <= v.len(),
            nl@ == newline(),
            v@ == s@,
            lines(v@) == texts(out@) + lines(v@.skip(pos as int)),
        decreases v.len() - pos,
    {
        let ghost tail = v@.skip(pos as int);
        let ghost before = texts(out@);
        proof {
            lemma_first_match_skip(v@, nl@, pos as int);
            lemma_first_match_from(v@, nl@, pos as int);
        }
        match find_from(&v, &nl, pos) {
            Some(i) => {
                let end = if i > pos && v[i - 1] == '\r' {
                    i - 1
                } else {
                    i
                };
                let line = slice_string(&v, pos, end);
                proof {
                    assert(tail.take(i - pos) =~= v@.subrange(pos as int, i as int));
                    assert(line@ =~= strip_cr(tail.take(i - pos)));
                    assert(tail.skip(i - pos + 1) =~= v@.skip(i + 1));
                }
                out.push(line);
                assert(texts(out@) =~= before + seq![strip_cr(tail.take(i - pos))]);
                assert(texts(out@) + lines(v@.skip(i + 1)) =~= before + (seq![
                    strip_cr(tail.take(i - pos)),
                ] + lines(tail.skip(i - pos + 1))));
                pos = i + 1;
            },
            None => {
                let line = slice_string(&v, pos, v.len());
                assert(line@ =~= tail);
                out.push(line);
                assert(texts(out@) =~= before + seq![tail]);
                pos = v.len();
                assert(v@.skip(pos as int) =~= Seq::<char>::empty());
                assert(texts(out@) + lines(v@.skip(pos as int)) =~= before + seq![tail]);
            },
        }
    }
    assert(v@.skip(pos as int) =~= Seq::<char>::empty());
    assert(texts(out@) + lines(v@.skip(pos as int)) =~= texts(out@));
    out
}

/// Number of leading characters of `s` that are not white space.
pub open spec fn leading_word(s: Seq<char>) -> int
    decreases s.len(),
{
    if s.len() == 0 || is_space(s[0]) {
        0
    } else {
        1 + leading_word(s.drop_first())
    }
}

/// The words of `s`: its maximal runs of characters that are not white
/// space, in order.
pub open spec fn words(s: Seq<char>) -> Seq<Seq<char>>
    decreases s.len(),
    via words_decreases
{
    let rest = s.skip(leading_space(s));
    if rest.len() == 0 {
        Seq::empty()
    } else {
        seq![rest.take(leading_word(rest))] + words(rest.skip(leading_word(rest)))
    }
}

#[via_fn]
proof fn words_decreases(s: Seq<char>) {
    lemma_leading_space(s);
    let rest = s.skip(leading_space(s));
    if rest.len() > 0 {
        lemma_leading_word(rest);
        assert(rest[0] == s[leading_space(s)]);
    }
}

/// The leading word lies within the text and ends at white space or at the
/// end.
pub proof fn lemma_leading_word(s: Seq<char>)
    ensures
        0 <= leading_word(s) <= s.len(),
        s.len() > 0 && !is_space(s[0]) ==> leading_word(s) >= 1,
        leading_word(s) < s.len() ==> is_space(s[leading_word(s)]),
        forall|i: int| 0 <= i < leading_word(s) ==> !is_space(s[i]),
    decreases s.len(),
{
    if s.len() > 0 && !is_space(s[0]) {
        lemma_leading_word(s.drop_first());
        assert forall|i: int| 0 <= i < leading_word(s) implies !is_space(s[i]) by {
            if i > 0 {
                assert(s[i] == s.drop_first()[i - 1]);
            }
        }
    }
}

/// A run of other characters ends where the first white space stands.
pub proof fn lemma_leading_word_is(s: Seq<char>, n: int)
    requires
        0 <= n <= s.len(),
        n < s.len() ==> is_space(s[n]),
        forall|i: int| 0 <= i < n ==> !is_space(s[i]),
    ensures
        leading_word(s) == n,
    decreases s.len(),
{
    if s.len() > 0 && n > 0 {
        let t = s.drop_first();
        assert forall|i: int| 0 <= i < n - 1 implies !is_space(t[i]) by {
            assert(t[i] == s[i + 1]);
        }
        lemma_leading_word_is(t, n - 1);
    }
}

/// The words of `s`.
pub fn split_words(s: &str) -> (out: Vec<String>)
    ensures
        texts(out@) == words(s@),
{
    let v = to_chars(s);
    let mut out: Vec<String> = Vec::new();
    let mut pos: usize = 0;
    assert(v@.skip(0) =~= v@);
    assert(texts(out@) + words(v@.skip(0)) =~= words(v@));
    while pos < v.len()
        invariant
            pos <= v.len(),
            v@ == s@,
            words(v@) == texts(out@) + words(v@.skip(pos as int)),
        decreases v.len() - pos,
    {
        let ghost tail = v@.skip(pos as int);
        let ghost before = texts(out@);
        let mut start: usize = pos;
        while start < v.len() && is_space_char(v[start])
            invariant
                pos <= start <= v.len(),
                forall|i: int| pos <= i < start ==> is_space(v[i]),
            decreases v.len() - start,
        {
            start += 1;
        }
        proof {
            assert forall|i: int| 0 <= i < start - pos implies is_space(tail[i]) by {
                assert(tail[i] == v[pos + i]);
            }
            if start < v.len() {
                assert(tail[start - pos] == v[start as int]);
            }
            lemma_leading_space(tail);
            let lead = leading_space(tail);
            if lead < start - pos {
                assert(is_space(tail[lead]));
            }
            if lead > start - pos {
                assert(is_space(tail[start - pos]));
            }
            assert(lead == start - pos);
            assert(tail.skip(lead) =~= v@.skip(start as int));
        }
        let ghost rest = v@.skip(start as int);
        if start == v.len() {
            pos = start;
            assert(texts(out@) + words(v@.skip(pos as int)) =~= before + words(tail));
        } else {
            let mut end: usize = start;
            while end < v.len() && !is_space_char(v[end])
                invariant
                    start <= end <= v.len(),
                    forall|i: int| start <= i < end ==> !is_space(v[i]),
                decreases v.len() - end,
            {
                end += 1;
            }
            proof {
                assert forall|i: int| 0 <= i < end - start implies !is_space(rest[i]) by {
                    assert(rest[i] == v[start + i]);
                }
                if end < v.len() {
                    assert(rest[end - start] == v[end as int]);
                }
                lemma_leading_word_is(rest, end - start);
                assert(rest.take(end - start) =~= v@.subrange(start as int, end as int));
                assert(rest.skip(end - start) =~= v@.skip(end as int));
            }
            let word = slice_string(&v, start, end);
            out.push(word);
            assert(texts(out@) =~= before.push(rest.take(end - start)));
            assert(texts(out@) + words(v@.skip(end as int)) =~= before + (seq![
                rest.take(end - start),
            ] + words(rest.skip(end - start))));
            pos = end;
        }
    }
    assert(v@.skip(pos as int) =~= Seq::<char>::empty());
    assert(leading_space(Seq::<char>::empty()) == 0);
    assert(Seq::<char>::empty().skip(0) =~= Seq::<char>::empty());
    assert(texts(out@) + words(v@.skip(pos as int)) =~= texts(out@));
    out
}

} // verus!
