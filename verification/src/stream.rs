//! Splits an incrementally arriving text stream into reasoning text and answer
//! text. Reasoning spans are delimited by an opening and a closing tag; a tag
//! may arrive split across any number of chunks.

use vstd::prelude::*;
use vstd::string::*;
use crate::text::{
    append_chars, find_from, first_match, lemma_first_match_from, lemma_first_match_skip,
    slice_string, slice_chars, to_chars,
};

verus! {

/// The tag that opens a reasoning span.
pub open spec fn open_tag() -> Seq<char> {
    "<think>"@
}

/// The tag that closes a reasoning span.
pub open spec fn close_tag() -> Seq<char> {
    "</think>"@
}

/// The tag that ends the current mode: the closing tag inside a reasoning
/// span, the opening tag outside.
pub open spec fn delimiter(in_span: bool) -> Seq<char> {
    if in_span {
        close_tag()
    } else {
        open_tag()
    }
}

/// Lengths of the two tags.
pub proof fn lemma_delimiter_len(in_span: bool)
    ensures
        delimiter(in_span).len() == if in_span { 8int } else { 7int },
{
    reveal_strlit("<think>");
    reveal_strlit("</think>");
}

/// One piece of output: whether it is reasoning, and its text.
pub type Piece = (bool, Seq<char>);

/// The event for `text` in mode `kind`: none when the text is empty.
pub open spec fn emit(kind: bool, text: Seq<char>) -> Seq<Piece> {
    if text.len() == 0 {
        Seq::empty()
    } else {
        seq![(kind, text)]
    }
}

/// Outcome of scanning a buffer: the events that can be released, the mode
/// scanning ended in, and the tail that must be held back.
pub struct Scan {
    pub events: Seq<Piece>,
    pub in_span: bool,
    pub rest: Seq<char>,
}

/// Scans `buf` starting in mode `in_span`. Up to each delimiter of the
/// current mode the text is released and the mode flips; once no delimiter
/// remains, all but the last `delimiter length - 1` characters are released.
pub open spec fn scan(in_span: bool, buf: Seq<char>) -> Scan
    decreases buf.len(),
    via scan_decreases
{
    let d = delimiter(in_span);
    match first_match(buf, d) {
        Some(i) => {
            let tail = scan(!in_span, buf.skip(i + d.len()));
            Scan { events: emit(in_span, buf.take(i)) + tail.events, ..tail }
        },
        None => {
            let keep = if buf.len() < d.len() - 1 {
                buf.len() as int
            } else {
                d.len() - 1
            };
            Scan {
                events: emit(in_span, buf.take(buf.len() - keep)),
                in_span,
                rest: buf.skip(buf.len() - keep),
            }
        },
    }
}

#[via_fn]
proof fn scan_decreases(in_span: bool, buf: Seq<char>) {
    lemma_first_match_from(buf, delimiter(in_span), 0);
    lemma_delimiter_len(in_span);
}

/// The characters of `text`, each tagged with `kind`.
pub open spec fn tag_all(kind: bool, text: Seq<char>) -> Seq<(bool, char)> {
    Seq::new(text.len(), |i: int| (kind, text[i]))
}

/// The characters of a list of events in order, each tagged with its kind.
pub open spec fn flatten(events: Seq<Piece>) -> Seq<(bool, char)>
    decreases events.len(),
{
    if events.len() == 0 {
        Seq::empty()
    } else {
        flatten(events.drop_last()) + tag_all(events.last().0, events.last().1)
    }
}

/// The text of one kind among tagged characters, in order.
pub open spec fn text_of(tagged: Seq<(bool, char)>, kind: bool) -> Seq<char>
    decreases tagged.len(),
{
    if tagged.len() == 0 {
        Seq::empty()
    } else if tagged.last().0 == kind {
        text_of(tagged.drop_last(), kind).push(tagged.last().1)
    } else {
        text_of(tagged.drop_last(), kind)
    }
}

/// What a complete stream `s` means when read from mode `in_span`: the
/// delimiters vanish and every other character is tagged with the mode it
/// stands in.
pub open spec fn classify(in_span: bool, s: Seq<char>) -> Seq<(bool, char)>
    decreases s.len(),
    via classify_decreases
{
    let d = delimiter(in_span);
    match first_match(s, d) {
        Some(i) => tag_all(in_span, s.take(i)) + classify(!in_span, s.skip(i + d.len())),
        None => tag_all(in_span, s),
    }
}

#[via_fn]
proof fn classify_decreases(in_span: bool, s: Seq<char>) {
    lemma_first_match_from(s, delimiter(in_span), 0);
    lemma_delimiter_len(in_span);
}

/// The views of a list of events.
pub open spec fn pieces(events: Seq<(bool, String)>) -> Seq<Piece> {
    Seq::new(events.len(), |i: int| (events[i].0, events[i].1@))
}

/// Abstract state of a filter.
pub struct FilterState {
    /// Whether the filter looks for tags at all.
    pub scanning: bool,
    /// Whether the text read so far ends inside a reasoning span.
    pub in_span: bool,
    /// Text received but not yet released.
    pub pending: Seq<char>,
}

impl FilterState {
    /// A scanning filter holds back less than one delimiter; a pass-through
    /// filter holds back nothing and never enters a span.
    pub open spec fn wf(self) -> bool {
        if self.scanning {
            self.pending.len() < delimiter(self.in_span).len()
        } else {
            !self.in_span && self.pending.len() == 0
        }
    }

    /// State and released events after receiving `chunk`.
    pub open spec fn push(self, chunk: Seq<char>) -> (FilterState, Seq<Piece>) {
        if self.scanning {
            let r = scan(self.in_span, self.pending + chunk);
            (FilterState { scanning: true, in_span: r.in_span, pending: r.rest }, r.events)
        } else {
            (self, emit(false, chunk))
        }
    }

    /// State and released events at the end of the stream: what was held
    /// back is released in the current mode, and the filter starts afresh.
    pub open spec fn finish(self) -> (FilterState, Seq<Piece>) {
        (
            FilterState { scanning: self.scanning, in_span: false, pending: Seq::empty() },
            emit(self.in_span, self.pending),
        )
    }
}

/// The text of a list of chunks, joined in order.
pub open spec fn concat(chunks: Seq<Seq<char>>) -> Seq<char>
    decreases chunks.len(),
{
    if chunks.len() == 0 {
        Seq::empty()
    } else {
        concat(chunks.drop_last()) + chunks.last()
    }
}

impl FilterState {
    /// State after receiving `chunks` one by one, and the tagged text
    /// released on the way.
    pub open spec fn feed(self, chunks: Seq<Seq<char>>) -> (FilterState, Seq<(bool, char)>)
        decreases chunks.len(),
    {
        if chunks.len() == 0 {
            (self, Seq::empty())
        } else {
            let before = self.feed(chunks.drop_last());
            let step = before.0.push(chunks.last());
            (step.0, before.1 + flatten(step.1))
        }
    }

    /// All the tagged text released for a stream that arrives as `chunks`
    /// and then ends.
    pub open spec fn run(self, chunks: Seq<Seq<char>>) -> Seq<(bool, char)> {
        let fed = self.feed(chunks);
        fed.1 + flatten(fed.0.finish().1)
    }
}

/// Incremental splitter of a text stream into reasoning and answer text.
pub struct StreamFilter {
    buffer: Vec<char>,
    in_span: bool,
    scanning: bool,
}

impl View for StreamFilter {
    type V = FilterState;

    closed spec fn view(&self) -> FilterState {
        FilterState { scanning: self.scanning, in_span: self.in_span, pending: self.buffer@ }
    }
}

/// The characters of the delimiter that ends mode `in_span`.
fn delimiter_chars(in_span: bool) -> (d: Vec<char>)
    ensures
        d@ == delimiter(in_span),
{
    if in_span {
        to_chars("</think>")
    } else {
        to_chars("<think>")
    }
}

impl StreamFilter {
    #[verifier::type_invariant]
    spec fn inv(&self) -> bool {
        self@.wf()
    }

    /// A filter that separates reasoning spans from answer text.
    pub fn new() -> (filter: StreamFilter)
        ensures
            filter@ == (FilterState { scanning: true, in_span: false, pending: Seq::empty() }),
            filter@.wf(),
    {
        proof {
            lemma_delimiter_len(false);
        }
        StreamFilter { buffer: Vec::new(), in_span: false, scanning: true }
    }

    /// A filter that passes every chunk through as answer text, for services
    /// that deliver reasoning and answer in separate fields.
    pub fn passthrough() -> (filter: StreamFilter)
        ensures
            filter@ == (FilterState { scanning: false, in_span: false, pending: Seq::empty() }),
            filter@.wf(),
    {
        StreamFilter { buffer: Vec::new(), in_span: false, scanning: false }
    }

    /// Whether the text received so far ends inside a reasoning span.
    pub fn in_reasoning(&self) -> (inside: bool)
        ensures
            inside == self@.in_span,
    {
        self.in_span
    }

    /// Receives the next chunk and returns the events it releases, in order.
    pub fn push(&mut self, chunk: &str) -> (events: Vec<(bool, String)>)
        ensures
            final(self)@ == old(self)@.push(chunk@).0,
            pieces(events@) == old(self)@.push(chunk@).1,
            final(self)@.wf(),
    {
        proof {
            use_type_invariant(&*self);
        }
        let mut events: Vec<(bool, String)> = Vec::new();
        if !self.scanning {
            if !chunk.is_empty() {
                events.push((false, chunk.to_owned()));
            }
            assert(pieces(events@) =~= emit(false, chunk@));
            return events;
        }
        let ghost start = self.in_span;
        let ghost whole = self.buffer@ + chunk@;
        let mut buf: Vec<char> = Vec::new();
        append_chars(&mut buf, &self.buffer);
        let fresh = to_chars(chunk);
        append_chars(&mut buf, &fresh);
        assert(buf@ =~= whole);
        let mut in_span = self.in_span;
        let mut pos: usize = 0;
        let mut cut: usize = 0;
        let mut done = false;
        assert(whole.skip(0) =~= whole);
        assert(pieces(events@) + scan(start, whole).events =~= scan(start, whole).events);
        while !done
            invariant
                buf@ == whole,
                pos <= buf.len(),
                !done ==> scan(start, whole) == (Scan {
                    events: pieces(events@) + scan(in_span, whole.skip(pos as int)).events,
                    in_span: scan(in_span, whole.skip(pos as int)).in_span,
                    rest: scan(in_span, whole.skip(pos as int)).rest,
                }),
                done ==> scan(start, whole) == (Scan {
                    events: pieces(events@),
                    in_span,
                    rest: whole.skip(cut as int),
                }),
                done ==> cut <= buf.len() && buf.len() - cut < delimiter(in_span).len(),
            decreases buf.len() - pos, (if done { 0int } else { 1int }),
        {
            let d = delimiter_chars(in_span);
            let ghost tail = whole.skip(pos as int);
            let ghost before = pieces(events@);
            proof {
                lemma_delimiter_len(in_span);
                lemma_first_match_skip(whole, d@, pos as int);
                lemma_first_match_from(whole, d@, pos as int);
            }
            match find_from(&buf, &d, pos) {
                Some(i) => {
                    assert(first_match(tail, d@) == Some(i - pos));
                    assert(tail.take(i - pos) =~= whole.subrange(pos as int, i as int));
                    assert(tail.skip(i - pos + d.len()) =~= whole.skip(i + d.len()));
                    if i > pos {
                        events.push((in_span, slice_string(&buf, pos, i)));
                        assert(pieces(events@) =~= before + emit(in_span, tail.take(i - pos)));
                    } else {
                        assert(pieces(events@) =~= before + emit(in_span, tail.take(i - pos)));
                    }
                    assert(pieces(events@) + scan(!in_span, whole.skip(i + d.len())).events
                        =~= before + (emit(in_span, tail.take(i - pos)) + scan(
                        !in_span,
                        whole.skip(i + d.len()),
                    ).events));
                    pos = i + d.len();
                    in_span = !in_span;
                },
                None => {
                    assert(first_match(tail, d@) is None);
                    let left: usize = buf.len() - pos;
                    let keep: usize = if left < d.len() - 1 {
                        left
                    } else {
                        d.len() - 1
                    };
                    cut = buf.len() - keep;
                    assert(tail.take(tail.len() - keep) =~= whole.subrange(pos as int, cut as int));
                    assert(tail.skip(tail.len() - keep) =~= whole.skip(cut as int));
                    if cut > pos {
                        events.push((in_span, slice_string(&buf, pos, cut)));
                        assert(pieces(events@) =~= before + emit(
                            in_span,
                            tail.take(tail.len() - keep),
                        ));
                    } else {
                        assert(pieces(events@) =~= before + emit(
                            in_span,
                            tail.take(tail.len() - keep),
                        ));
                    }
                    done = true;
                },
            }
        }
        let rest = slice_chars(&buf, cut, buf.len());
        assert(rest@ =~= whole.skip(cut as int));
        *self = StreamFilter { buffer: rest, in_span, scanning: true };
        events
    }

    /// Ends the stream: releases what was held back, in the current mode, and
    /// resets the filter for the next stream.
    pub fn finish(&mut self) -> (events: Vec<(bool, String)>)
        ensures
            final(self)@ == old(self)@.finish().0,
            pieces(events@) == old(self)@.finish().1,
            final(self)@.wf(),
    {
        proof {
            use_type_invariant(&*self);
            lemma_delimiter_len(false);
        }
        let mut events: Vec<(bool, String)> = Vec::new();
        if self.buffer.len() > 0 {
            events.push((self.in_span, slice_string(&self.buffer, 0, self.buffer.len())));
            assert(self.buffer@.subrange(0, self.buffer.len() as int) =~= self.buffer@);
        }
        assert(pieces(events@) =~= emit(self.in_span, self.buffer@));
        *self = StreamFilter { buffer: Vec::new(), in_span: false, scanning: self.scanning };
        events
    }
}

} // verus!
