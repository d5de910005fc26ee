//! Byte caps on text. A text is measured by the length of its UTF-8
//! encoding and is cut only between characters.

use vstd::prelude::*;
use vstd::string::*;
use crate::text::{slice_string, to_chars};

verus! {

/// Number of bytes of the UTF-8 encoding of `c`.
pub open spec fn char_width(c: char) -> nat {
    let u = c as u32;
    if u < 0x80 {
        1
    } else if u < 0x800 {
        2
    } else if u < 0x10000 {
        3
    } else {
        4
    }
}

/// Number of bytes of the UTF-8 encoding of `s`.
pub open spec fn utf8_len(s: Seq<char>) -> nat
    decreases s.len(),
{
    if s.len() == 0 {
        0
    } else {
        utf8_len(s.drop_last()) + char_width(s.last())
    }
}

/// Number of characters of the longest prefix of `s` whose encoding takes at
/// most `cap` bytes.
pub open spec fn fit_len(s: Seq<char>, cap: nat) -> nat
    decreases s.len(),
{
    if s.len() == 0 || char_width(s[0]) > cap {
        0
    } else {
        1 + fit_len(s.drop_first(), (cap - char_width(s[0])) as nat)
    }
}

/// `s` if its encoding takes at most `cap` bytes; else its longest prefix
/// that does, followed by `marker`.
pub open spec fn clip(s: Seq<char>, cap: nat, marker: Seq<char>) -> Seq<char> {
    if utf8_len(s) <= cap {
        s
    } else {
        s.take(fit_len(s, cap) as int) + marker
    }
}

/// The encoded length of a concatenation is the sum of the lengths.
pub proof fn lemma_utf8_len_concat(a: Seq<char>, b: Seq<char>)
    ensures
        utf8_len(a + b) == utf8_len(a) + utf8_len(b),
    decreases b.len(),
{
    if b.len() == 0 {
        assert(a + b =~= a);
    } else {
        lemma_utf8_len_concat(a, b.drop_last());
        assert((a + b).drop_last() =~= a + b.drop_last());
        assert((a + b).last() == b.last());
    }
}

/// The prefix that `fit_len` measures fits the cap, and one more character
/// would not; it is the whole text exactly when the whole text fits.
pub proof fn lemma_fit_len(s: Seq<char>, cap: nat)
    ensures
        fit_len(s, cap) <= s.len(),
        utf8_len(s.take(fit_len(s, cap) as int)) <= cap,
        fit_len(s, cap) < s.len() ==> utf8_len(s.take(fit_len(s, cap) as int + 1)) > cap,
        (fit_len(s, cap) == s.len()) == (utf8_len(s) <= cap),
    decreases s.len(),
{
    if s.len() == 0 {
        assert(s.take(0) =~= s);
    } else {
        let w = char_width(s[0]);
        let head = seq![s[0]];
        assert(head.drop_last() =~= Seq::<char>::empty());
        assert(utf8_len(Seq::<char>::empty()) == 0);
        assert(head.last() == s[0]);
        assert(utf8_len(head) == w);
        if w > cap {
            assert(s.take(0) =~= Seq::<char>::empty());
            assert(s.take(1) =~= head);
            assert(s =~= head + s.drop_first());
            lemma_utf8_len_concat(head, s.drop_first());
        } else {
            let rest = s.drop_first();
            let left = (cap - w) as nat;
            lemma_fit_len(rest, left);
            let n = fit_len(rest, left) as int;
            assert(s.take(n + 1) =~= head + rest.take(n));
            lemma_utf8_len_concat(head, rest.take(n));
            if n < rest.len() {
                assert(s.take(n + 2) =~= head + rest.take(n + 1));
                lemma_utf8_len_concat(head, rest.take(n + 1));
            }
            assert(s =~= head + rest);
            lemma_utf8_len_concat(head, rest);
        }
    }
}

/// The measure used here is the length of the encoding as the standard
/// library counts it.
pub proof fn lemma_utf8_len_is_encoding(s: Seq<char>)
    ensures
        utf8_len(s) == vstd::utf8::encode_utf8(s).len(),
    decreases s.len(),
{
    if s.len() > 0 {
        let head = seq![s[0]];
        let rest = s.drop_first();
        lemma_utf8_len_is_encoding(rest);
        assert(head.drop_last() =~= Seq::<char>::empty());
        assert(utf8_len(Seq::<char>::empty()) == 0);
        assert(head.last() == s[0]);
        assert(utf8_len(head) == char_width(s[0]));
        assert(s =~= head + rest);
        lemma_utf8_len_concat(head, rest);
        vstd::utf8::char_is_scalar(s[0]);
        assert(vstd::utf8::encode_scalar(s[0] as u32).len() == char_width(s[0]));
    }
}

/// Number of bytes of the UTF-8 encoding of `s`.
pub fn byte_len(s: &str) -> (n: usize)
    ensures
        n == utf8_len(s@),
{
    proof {
        lemma_utf8_len_is_encoding(s@);
    }
    s.as_bytes().len()
}

/// Number of bytes of the UTF-8 encoding of `c`.
pub fn width_of(c: char) -> (w: usize)
    ensures
        w == char_width(c),
        1 <= w <= 4,
{
    let u: u32 = c as u32;
    if u < 0x80 {
        1
    } else if u < 0x800 {
        2
    } else if u < 0x10000 {
        3
    } else {
        4
    }
}

/// Number of characters of the longest prefix of `v` whose encoding takes at
/// most `cap` bytes.
pub fn fit_chars(v: &Vec<char>, cap: usize) -> (n: usize)
    ensures
        n == fit_len(v@, cap as nat),
        n <= v.len(),
{
    let mut n: usize = 0;
    let mut left: usize = cap;
    proof {
        assert(v@.skip(0) =~= v@);
        lemma_fit_len(v@, cap as nat);
    }
    while n < v.len()
        invariant
            n <= v.len(),
            fit_len(v@, cap as nat) == n + fit_len(v@.skip(n as int), left as nat),
        decreases v.len() - n,
    {
        let w = width_of(v[n]);
        proof {
            assert(v@.skip(n as int)[0] == v@[n as int]);
            assert(v@.skip(n as int).drop_first() =~= v@.skip(n + 1));
        }
        if w > left {
            return n;
        }
        left -= w;
        n += 1;
    }
    assert(v@.skip(n as int) =~= Seq::<char>::empty());
    n
}

/// `s` if its encoding takes at most `cap` bytes; else its longest prefix
/// that does, followed by `marker`.
pub fn clip_text(s: &str, cap: usize, marker: &str) -> (out: String)
    ensures
        out@ == clip(s@, cap as nat, marker@),
{
    let v = to_chars(s);
    let n = fit_chars(&v, cap);
    proof {
        lemma_fit_len(v@, cap as nat);
    }
    if n == v.len() {
        s.to_owned()
    } else {
        let mut out = slice_string(&v, 0, n);
        out.append(marker);
        out
    }
}

/// Whether the encoding of `s` takes more than `cap` bytes.
pub fn exceeds(s: &str, cap: usize) -> (over: bool)
    ensures
        over == (utf8_len(s@) > cap),
{
    let v = to_chars(s);
    let n = fit_chars(&v, cap);
    proof {
        lemma_fit_len(v@, cap as nat);
    }
    n < v.len()
}

} // verus!
