//! Laws of the stream filter: what it releases does not depend on how the
//! stream is cut into chunks, and over a whole stream it is the
//! classification of the stream's text.

use vstd::prelude::*;
use crate::stream::{
    classify, concat, delimiter, emit, flatten, lemma_delimiter_len, scan, tag_all, text_of,
    FilterState, Piece,
};
use crate::text::{
    first_match, lemma_first_match_from, lemma_first_match_is, lemma_first_match_none,
    lemma_first_match_skip, matches_at,
};

verus! {

/// Tagging distributes over concatenation of text.
pub proof fn lemma_tag_all_concat(kind: bool, a: Seq<char>, b: Seq<char>)
    ensures
        tag_all(kind, a + b) == tag_all(kind, a) + tag_all(kind, b),
{
    assert(tag_all(kind, a + b) =~= tag_all(kind, a) + tag_all(kind, b));
}

/// An event flattens to its tagged text.
pub proof fn lemma_flatten_emit(kind: bool, text: Seq<char>)
    ensures
        flatten(emit(kind, text)) == tag_all(kind, text),
{
    if text.len() == 0 {
        assert(tag_all(kind, text) =~= Seq::empty());
    } else {
        let e = emit(kind, text);
        assert(e.drop_last() =~= Seq::<Piece>::empty());
        assert(flatten(e.drop_last()) =~= Seq::empty());
        assert(flatten(e) =~= tag_all(kind, text));
    }
}

/// Flattening distributes over concatenation of event lists.
pub proof fn lemma_flatten_concat(a: Seq<Piece>, b: Seq<Piece>)
    ensures
        flatten(a + b) == flatten(a) + flatten(b),
    decreases b.len(),
{
    if b.len() == 0 {
        assert(a + b =~= a);
        assert(flatten(a) + flatten(b) =~= flatten(a));
    } else {
        lemma_flatten_concat(a, b.drop_last());
        assert((a + b).drop_last() =~= a + b.drop_last());
        assert((a + b).last() == b.last());
        assert(flatten(a + b) =~= flatten(a) + flatten(b));
    }
}

/// A match that lies wholly inside `a` is a match in `a + b`, and the reverse.
proof fn lemma_match_in_prefix(a: Seq<char>, b: Seq<char>, pat: Seq<char>, j: int)
    requires
        0 <= j,
        j + pat.len() <= a.len(),
    ensures
        matches_at(a + b, pat, j) == matches_at(a, pat, j),
{
    assert((a + b).subrange(j, j + pat.len()) =~= a.subrange(j, j + pat.len()));
}

/// What scanning holds back is shorter than the delimiter of the mode it
/// ended in.
pub proof fn lemma_scan_rest_short(in_span: bool, buf: Seq<char>)
    ensures
        scan(in_span, buf).rest.len() < delimiter(scan(in_span, buf).in_span).len(),
    decreases buf.len(),
{
    let d = delimiter(in_span);
    lemma_delimiter_len(in_span);
    lemma_first_match_from(buf, d, 0);
    match first_match(buf, d) {
        Some(i) => {
            lemma_scan_rest_short(!in_span, buf.skip(i + d.len()));
        },
        None => {},
    }
}

/// Scanning a short buffer that holds no delimiter releases nothing.
pub proof fn lemma_scan_short(in_span: bool, buf: Seq<char>)
    requires
        buf.len() < delimiter(in_span).len(),
    ensures
        scan(in_span, buf).events == Seq::<Piece>::empty(),
        scan(in_span, buf).in_span == in_span,
        scan(in_span, buf).rest == buf,
{
    let d = delimiter(in_span);
    lemma_first_match_from(buf, d, 0);
    assert(first_match(buf, d) is None);
    assert(buf.skip(0) =~= buf);
    assert(buf.take(0) =~= Seq::<char>::empty());
}

/// How many characters a scan without a match holds back.
pub open spec fn held_back(in_span: bool, len: int) -> int {
    if len < delimiter(in_span).len() - 1 {
        len
    } else {
        delimiter(in_span).len() - 1
    }
}

/// Scanning a buffer whose first delimiter stands at `i`.
proof fn lemma_scan_match(in_span: bool, buf: Seq<char>, i: int)
    requires
        first_match(buf, delimiter(in_span)) == Some(i),
    ensures
        scan(in_span, buf).events == emit(in_span, buf.take(i)) + scan(
            !in_span,
            buf.skip(i + delimiter(in_span).len()),
        ).events,
        scan(in_span, buf).in_span == scan(
            !in_span,
            buf.skip(i + delimiter(in_span).len()),
        ).in_span,
        scan(in_span, buf).rest == scan(!in_span, buf.skip(i + delimiter(in_span).len())).rest,
        flatten(scan(in_span, buf).events) == tag_all(in_span, buf.take(i)) + flatten(
            scan(!in_span, buf.skip(i + delimiter(in_span).len())).events,
        ),
{
    let tail = scan(!in_span, buf.skip(i + delimiter(in_span).len()));
    lemma_flatten_concat(emit(in_span, buf.take(i)), tail.events);
    lemma_flatten_emit(in_span, buf.take(i));
}

/// Scanning a buffer that holds no delimiter.
proof fn lemma_scan_no_match(in_span: bool, buf: Seq<char>)
    requires
        first_match(buf, delimiter(in_span)) is None,
    ensures
        scan(in_span, buf).in_span == in_span,
        scan(in_span, buf).rest == buf.skip(buf.len() - held_back(in_span, buf.len() as int)),
        flatten(scan(in_span, buf).events) == tag_all(
            in_span,
            buf.take(buf.len() - held_back(in_span, buf.len() as int)),
        ),
{
    lemma_flatten_emit(in_span, buf.take(buf.len() - held_back(in_span, buf.len() as int)));
}

/// Splitting where the first delimiter lies wholly inside `a`.
proof fn lemma_split_early(in_span: bool, a: Seq<char>, b: Seq<char>, i: int)
    requires
        first_match(a, delimiter(in_span)) == Some(i),
    ensures
        first_match(a + b, delimiter(in_span)) == Some(i),
        (a + b).skip(i + delimiter(in_span).len()) == a.skip(i + delimiter(in_span).len()) + b,
        (a + b).take(i) == a.take(i),
{
    let d = delimiter(in_span);
    lemma_first_match_from(a, d, 0);
    lemma_match_in_prefix(a, b, d, i);
    assert forall|j: int| 0 <= j < i implies !matches_at(a + b, d, j) by {
        lemma_match_in_prefix(a, b, d, j);
    }
    lemma_first_match_is(a + b, d, 0, i);
    assert((a + b).skip(i + d.len()) =~= a.skip(i + d.len()) + b);
    assert((a + b).take(i) =~= a.take(i));
}

/// Splitting where `a` holds no delimiter but `a + b` does, at `j`: the
/// delimiter begins inside what the scan of `a` held back, or in `b`.
proof fn lemma_split_late(in_span: bool, a: Seq<char>, b: Seq<char>, j: int)
    requires
        first_match(a, delimiter(in_span)) is None,
        first_match(a + b, delimiter(in_span)) == Some(j),
    ensures
        ({
            let cut = a.len() - held_back(in_span, a.len() as int);
            let p = a.skip(cut) + b;
            &&& cut <= j
            &&& first_match(p, delimiter(in_span)) == Some(j - cut)
            &&& p.skip(j - cut + delimiter(in_span).len()) == (a + b).skip(
                j + delimiter(in_span).len(),
            )
            &&& a.take(cut) + p.take(j - cut) == (a + b).take(j)
        }),
{
    let d = delimiter(in_span);
    let n = a.len() as int;
    let cut = n - held_back(in_span, n);
    let p = a.skip(cut) + b;
    lemma_delimiter_len(in_span);
    lemma_first_match_from(a, d, 0);
    lemma_first_match_from(a + b, d, 0);
    if j + d.len() <= n {
        lemma_match_in_prefix(a, b, d, j);
    }
    assert(cut <= j);
    assert(p =~= (a + b).skip(cut));
    lemma_first_match_skip(a + b, d, cut);
    lemma_first_match_is(a + b, d, cut, j);
    assert(p.skip(j - cut + d.len()) =~= (a + b).skip(j + d.len()));
    assert(a.take(cut) + p.take(j - cut) =~= (a + b).take(j));
}

/// Splitting where `a + b` holds no delimiter at all.
proof fn lemma_split_never(in_span: bool, a: Seq<char>, b: Seq<char>)
    requires
        first_match(a + b, delimiter(in_span)) is None,
    ensures
        ({
            let cut = a.len() - held_back(in_span, a.len() as int);
            let p = a.skip(cut) + b;
            let keep = held_back(in_span, (a + b).len() as int);
            &&& first_match(a, delimiter(in_span)) is None
            &&& first_match(p, delimiter(in_span)) is None
            &&& held_back(in_span, p.len() as int) == keep
            &&& p.skip(p.len() - keep) == (a + b).skip((a + b).len() - keep)
            &&& a.take(cut) + p.take(p.len() - keep) == (a + b).take((a + b).len() - keep)
        }),
{
    let d = delimiter(in_span);
    let n = a.len() as int;
    let cut = n - held_back(in_span, n);
    let p = a.skip(cut) + b;
    let keep = held_back(in_span, (a + b).len() as int);
    lemma_delimiter_len(in_span);
    lemma_first_match_from(a + b, d, 0);
    assert forall|j: int| 0 <= j implies !matches_at(a, d, j) by {
        if j + d.len() <= n {
            lemma_match_in_prefix(a, b, d, j);
        }
    }
    lemma_first_match_none(a, d, 0);
    assert(p =~= (a + b).skip(cut));
    lemma_first_match_skip(a + b, d, cut);
    lemma_first_match_none(a + b, d, cut);
    assert(p.skip(p.len() - keep) =~= (a + b).skip((a + b).len() - keep));
    assert(a.take(cut) + p.take(p.len() - keep) =~= (a + b).take((a + b).len() - keep));
}

/// Scanning `a + b` in one go releases the same tagged text, and ends in the
/// same state, as scanning `a` and then scanning what was held back followed
/// by `b`.
pub proof fn lemma_scan_split(in_span: bool, a: Seq<char>, b: Seq<char>)
    ensures
        ({
            let first = scan(in_span, a);
            let second = scan(first.in_span, first.rest + b);
            let whole = scan(in_span, a + b);
            &&& whole.in_span == second.in_span
            &&& whole.rest == second.rest
            &&& flatten(whole.events) == flatten(first.events) + flatten(second.events)
        }),
    decreases a.len(),
{
    let d = delimiter(in_span);
    let first = scan(in_span, a);
    let second = scan(first.in_span, first.rest + b);
    let whole = scan(in_span, a + b);
    lemma_delimiter_len(in_span);
    lemma_first_match_from(a, d, 0);
    match first_match(a, d) {
        Some(i) => {
            let cut = i + d.len();
            lemma_split_early(in_span, a, b, i);
            lemma_scan_match(in_span, a, i);
            lemma_scan_match(in_span, a + b, i);
            lemma_scan_split(!in_span, a.skip(cut), b);
            assert(flatten(whole.events) =~= flatten(first.events) + flatten(second.events));
        },
        None => {
            let cut = a.len() - held_back(in_span, a.len() as int);
            let p = a.skip(cut) + b;
            lemma_scan_no_match(in_span, a);
            match first_match(a + b, d) {
                Some(j) => {
                    lemma_split_late(in_span, a, b, j);
                    lemma_scan_match(in_span, a + b, j);
                    lemma_scan_match(in_span, p, j - cut);
                    lemma_tag_all_concat(in_span, a.take(cut), p.take(j - cut));
                    assert(flatten(whole.events) =~= flatten(first.events) + flatten(
                        second.events,
                    ));
                },
                None => {
                    let keep = held_back(in_span, (a + b).len() as int);
                    lemma_split_never(in_span, a, b);
                    lemma_scan_no_match(in_span, a + b);
                    lemma_scan_no_match(in_span, p);
                    lemma_tag_all_concat(in_span, a.take(cut), p.take(p.len() - keep));
                },
            }
        },
    }
}

/// What scanning releases, followed by what it holds back tagged with the
/// mode it ended in, is the classification of the whole buffer.
pub proof fn lemma_scan_classifies(in_span: bool, buf: Seq<char>)
    ensures
        flatten(scan(in_span, buf).events) + tag_all(
            scan(in_span, buf).in_span,
            scan(in_span, buf).rest,
        ) == classify(in_span, buf),
    decreases buf.len(),
{
    let d = delimiter(in_span);
    let r = scan(in_span, buf);
    lemma_delimiter_len(in_span);
    lemma_first_match_from(buf, d, 0);
    match first_match(buf, d) {
        Some(i) => {
            let rest = buf.skip(i + d.len());
            lemma_scan_classifies(!in_span, rest);
            let tail = scan(!in_span, rest);
            lemma_flatten_concat(emit(in_span, buf.take(i)), tail.events);
            lemma_flatten_emit(in_span, buf.take(i));
            assert(flatten(r.events) + tag_all(r.in_span, r.rest) =~= tag_all(
                in_span,
                buf.take(i),
            ) + (flatten(tail.events) + tag_all(tail.in_span, tail.rest)));
        },
        None => {
            let n = buf.len() as int;
            let k = if n < d.len() - 1 {
                n
            } else {
                d.len() - 1
            };
            lemma_flatten_emit(in_span, buf.take(n - k));
            lemma_tag_all_concat(in_span, buf.take(n - k), buf.skip(n - k));
            assert(buf.take(n - k) + buf.skip(n - k) =~= buf);
        },
    }
}

/// A well-formed filter stays well-formed when it receives a chunk.
pub proof fn lemma_push_wf(state: FilterState, chunk: Seq<char>)
    requires
        state.wf(),
    ensures
        state.push(chunk).0.wf(),
{
    if state.scanning {
        lemma_scan_rest_short(state.in_span, state.pending + chunk);
    }
}

/// Receiving `a` and then `b` leaves the filter in the same state, and
/// releases the same tagged text, as receiving `a + b` at once.
pub proof fn lemma_push_push(state: FilterState, a: Seq<char>, b: Seq<char>)
    requires
        state.wf(),
    ensures
        state.push(a).0.push(b).0 == state.push(a + b).0,
        flatten(state.push(a).1) + flatten(state.push(a).0.push(b).1) == flatten(
            state.push(a + b).1,
        ),
{
    if state.scanning {
        lemma_scan_split(state.in_span, state.pending + a, b);
        assert((state.pending + a) + b =~= state.pending + (a + b));
    } else {
        lemma_flatten_emit(false, a);
        lemma_flatten_emit(false, b);
        lemma_flatten_emit(false, a + b);
        lemma_tag_all_concat(false, a, b);
    }
}

/// Receiving an empty chunk changes nothing and releases nothing.
pub proof fn lemma_push_empty(state: FilterState)
    requires
        state.wf(),
    ensures
        state.push(Seq::empty()).0 == state,
        state.push(Seq::empty()).1 == Seq::<Piece>::empty(),
{
    if state.scanning {
        assert(state.pending + Seq::<char>::empty() =~= state.pending);
        lemma_scan_short(state.in_span, state.pending);
    }
}

/// Receiving chunks one by one leaves the filter in the same state, and
/// releases the same tagged text, as receiving their concatenation at once.
pub proof fn lemma_feed_is_push(state: FilterState, chunks: Seq<Seq<char>>)
    requires
        state.wf(),
    ensures
        state.feed(chunks).0 == state.push(concat(chunks)).0,
        state.feed(chunks).1 == flatten(state.push(concat(chunks)).1),
    decreases chunks.len(),
{
    if chunks.len() == 0 {
        lemma_push_empty(state);
    } else {
        lemma_feed_is_push(state, chunks.drop_last());
        lemma_push_push(state, concat(chunks.drop_last()), chunks.last());
    }
}

/// Chunking does not matter: two ways of cutting the same text into chunks
/// leave the filter in the same state and release the same reasoning text and
/// the same answer text, in the same order, both before and at the end of the
/// stream.
pub proof fn lemma_chunking_independent(
    state: FilterState,
    first: Seq<Seq<char>>,
    second: Seq<Seq<char>>,
)
    requires
        state.wf(),
        concat(first) == concat(second),
    ensures
        state.feed(first) == state.feed(second),
        state.run(first) == state.run(second),
        text_of(state.run(first), true) == text_of(state.run(second), true),
        text_of(state.run(first), false) == text_of(state.run(second), false),
{
    lemma_feed_is_push(state, first);
    lemma_feed_is_push(state, second);
}

/// Over a whole stream a scanning filter releases exactly the classification
/// of the stream's text: no character of a delimiter is released, and every
/// other character is released once, in order, tagged with the mode it stands
/// in. A pass-through filter releases the text unchanged as answer.
pub proof fn lemma_run_classifies(state: FilterState, chunks: Seq<Seq<char>>)
    requires
        state.wf(),
    ensures
        state.scanning ==> state.run(chunks) == classify(
            state.in_span,
            state.pending + concat(chunks),
        ),
        !state.scanning ==> state.run(chunks) == tag_all(false, concat(chunks)),
{
    lemma_feed_is_push(state, chunks);
    let fed = state.feed(chunks);
    lemma_flatten_emit(fed.0.in_span, fed.0.pending);
    if state.scanning {
        lemma_scan_classifies(state.in_span, state.pending + concat(chunks));
    } else {
        lemma_flatten_emit(false, concat(chunks));
        assert(tag_all(false, Seq::<char>::empty()) =~= Seq::empty());
        assert(state.run(chunks) =~= tag_all(false, concat(chunks)));
    }
}

} // verus!
