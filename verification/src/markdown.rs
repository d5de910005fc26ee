//! Laying out marked-up text as lines of styled spans that fit a width.
//! The markup arrives as a sequence of events; the outcome is independent of
//! any terminal.

use vstd::prelude::*;
use vstd::string::*;
use crate::lines::{leading_word, lemma_leading_word, lemma_leading_word_is, texts};
use crate::response::{split_complete, take_complete_lines};
use crate::text::{
    from_chars, is_space, is_space_char, leading_space, slice_string, to_chars,
    trim_start_index,
};

verus! {

/// A colour.
#[derive(Clone, Copy, Debug, PartialEq, Eq)]
pub enum Paint {
    Rgb(u8, u8, u8),
    White,
    DarkGray,
    Blue,
}

/// How a span is drawn.
#[derive(Clone, Copy, Debug, PartialEq, Eq)]
pub struct TextStyle {
    pub fg: Option<Paint>,
    pub bg: Option<Paint>,
    pub bold: bool,
    pub italic: bool,
    pub underlined: bool,
    pub crossed_out: bool,
}

/// A piece of text in one style.
#[derive(Clone, Debug, PartialEq, Eq)]
pub struct StyledSpan {
    pub text: String,
    pub style: TextStyle,
}

/// What a piece of markup opens.
#[derive(Clone, Debug, PartialEq, Eq)]
pub enum Block {
    /// A heading; `top` for one of the first level.
    Heading { top: bool },
    Paragraph,
    /// A code block, with the language of its fence if it names one.
    CodeBlock { language: Option<String> },
    List,
    Item,
    Emphasis,
    Strong,
    Strikethrough,
    Link,
    Other,
}

/// What a piece of markup closes.
#[derive(Clone, Copy, Debug, PartialEq, Eq)]
pub enum BlockEnd {
    Heading,
    Paragraph,
    Item,
    CodeBlock,
    List,
    Other,
}

/// One event of the markup.
#[derive(Clone, Debug, PartialEq, Eq)]
pub enum Markup {
    Start(Block),
    End(BlockEnd),
    Text(String),
    /// Code within a line.
    Code(String),
    SoftBreak,
    HardBreak,
    Other,
}

pub struct SpanView {
    pub text: Seq<char>,
    pub style: TextStyle,
}

pub enum BlockView {
    Heading { top: bool },
    Paragraph,
    CodeBlock { language: Option<Seq<char>> },
    List,
    Item,
    Emphasis,
    Strong,
    Strikethrough,
    Link,
    Other,
}

pub enum MarkupView {
    Start(BlockView),
    End(BlockEnd),
    Text(Seq<char>),
    Code(Seq<char>),
    SoftBreak,
    HardBreak,
    Other,
}

impl View for StyledSpan {
    type V = SpanView;

    open spec fn view(&self) -> SpanView {
        SpanView { text: self.text@, style: self.style }
    }
}

impl View for Block {
    type V = BlockView;

    open spec fn view(&self) -> BlockView {
        match self {
            Block::Heading { top } => BlockView::Heading { top: *top },
            Block::Paragraph => BlockView::Paragraph,
            Block::CodeBlock { language } => BlockView::CodeBlock {
                language: match language {
                    Some(l) => Some(l@),
                    None => None,
                },
            },
            Block::List => BlockView::List,
            Block::Item => BlockView::Item,
            Block::Emphasis => BlockView::Emphasis,
            Block::Strong => BlockView::Strong,
            Block::Strikethrough => BlockView::Strikethrough,
            Block::Link => BlockView::Link,
            Block::Other => BlockView::Other,
        }
    }
}

impl View for Markup {
    type V = MarkupView;

    open spec fn view(&self) -> MarkupView {
        match self {
            Markup::Start(b) => MarkupView::Start(b@),
            Markup::End(e) => MarkupView::End(*e),
            Markup::Text(t) => MarkupView::Text(t@),
            Markup::Code(c) => MarkupView::Code(c@),
            Markup::SoftBreak => MarkupView::SoftBreak,
            Markup::HardBreak => MarkupView::HardBreak,
            Markup::Other => MarkupView::Other,
        }
    }
}

/// The views of the spans of a line.
pub open spec fn line_view(line: Seq<StyledSpan>) -> Seq<SpanView> {
    line.map_values(|s: StyledSpan| s@)
}

/// The views of the lines of a text.
pub open spec fn lines_view(lines: Seq<Vec<StyledSpan>>) -> Seq<Seq<SpanView>> {
    lines.map_values(|l: Vec<StyledSpan>| line_view(l@))
}

/// The views of a list of events.
pub open spec fn markup_view(events: Seq<Markup>) -> Seq<MarkupView> {
    events.map_values(|e: Markup| e@)
}

/// The style without any colour or emphasis.
pub open spec fn plain_style() -> TextStyle {
    TextStyle {
        fg: None,
        bg: None,
        bold: false,
        italic: false,
        underlined: false,
        crossed_out: false,
    }
}

/// The style of headings.
pub open spec fn heading_style(top: bool) -> TextStyle {
    TextStyle { fg: Some(Paint::Rgb(88, 166, 255)), bold: true, underlined: top, ..plain_style() }
}

/// `style` in the colours of code.
pub open spec fn code_style(style: TextStyle) -> TextStyle {
    TextStyle {
        fg: Some(Paint::Rgb(255, 123, 114)),
        bg: Some(Paint::Rgb(30, 30, 30)),
        ..style
    }
}

/// The style of the label of a fenced code block.
pub open spec fn fence_style() -> TextStyle {
    TextStyle { fg: Some(Paint::DarkGray), ..plain_style() }
}

/// The style of the mark before a list item.
pub open spec fn marker_style() -> TextStyle {
    TextStyle { fg: Some(Paint::Rgb(63, 185, 80)), ..plain_style() }
}

/// The style inside a block that opens within the style `outer`.
pub open spec fn block_style(block: BlockView, outer: TextStyle) -> TextStyle {
    match block {
        BlockView::Heading { top } => heading_style(top),
        BlockView::CodeBlock { .. } => code_style(plain_style()),
        BlockView::Emphasis => TextStyle { italic: true, ..outer },
        BlockView::Strong => TextStyle { fg: Some(Paint::White), bold: true, ..outer },
        BlockView::Strikethrough => TextStyle { crossed_out: true, ..outer },
        BlockView::Link => TextStyle { fg: Some(Paint::Blue), underlined: true, ..outer },
        _ => outer,
    }
}

/// `n` times two blanks.
pub open spec fn indent(n: nat) -> Seq<char>
    decreases n,
{
    if n == 0 {
        Seq::empty()
    } else {
        indent((n - 1) as nat) + "  "@
    }
}

/// `a + b`, or the largest number of the machine where that would be more.
pub open spec fn capped_sum(a: usize, b: int) -> usize {
    if a + b <= usize::MAX {
        (a + b) as usize
    } else {
        usize::MAX
    }
}

/// The pieces of `s`, each ended by its first white-space character; the
/// last piece may end without one.
pub open spec fn pieces(s: Seq<char>) -> Seq<Seq<char>>
    decreases s.len(),
    via pieces_decreases
{
    if s.len() == 0 {
        Seq::empty()
    } else {
        let cut = piece_len(s);
        seq![s.take(cut)] + pieces(s.skip(cut))
    }
}

/// Length of the first piece of a text that is not empty.
pub open spec fn piece_len(s: Seq<char>) -> int {
    if leading_word(s) < s.len() {
        leading_word(s) + 1
    } else {
        leading_word(s)
    }
}

#[via_fn]
proof fn pieces_decreases(s: Seq<char>) {
    lemma_leading_word(s);
}

/// The parts of `s` between its line feeds: one more than it has line
/// feeds.
pub open spec fn code_parts(s: Seq<char>) -> Seq<Seq<char>> {
    split_complete(s).0.push(split_complete(s).1)
}

/// The layout while it is made.
pub struct Layout {
    /// The lines that are complete.
    pub lines: Seq<Seq<SpanView>>,
    /// The line that is being filled.
    pub line: Seq<SpanView>,
    /// The width of the line that is being filled.
    pub width: usize,
    /// The styles of the blocks that are open, innermost last.
    pub styles: Seq<TextStyle>,
    pub in_code: bool,
    /// The number of lists that are open.
    pub depth: usize,
}

impl Layout {
    /// The style in force: that of the innermost open block, or the base
    /// style where none is open.
    pub open spec fn top(self, base: TextStyle) -> TextStyle {
        if self.styles.len() > 0 {
            self.styles.last()
        } else {
            base
        }
    }

    /// The line that is being filled is completed, unless it is empty.
    pub open spec fn break_line(self) -> Layout {
        if self.line.len() > 0 {
            Layout { lines: self.lines.push(self.line), line: Seq::empty(), width: 0, ..self }
        } else {
            self
        }
    }

    /// A span joins the line that is being filled.
    pub open spec fn put(self, text: Seq<char>, style: TextStyle) -> Layout {
        Layout {
            line: self.line.push(SpanView { text, style }),
            width: capped_sum(self.width, text.len() as int),
            ..self
        }
    }

    /// A word joins the line if it fits, or if the line is empty; else
    /// the line is completed and the word, without the white space before
    /// it, begins the next.
    pub open spec fn put_word(self, word: Seq<char>, style: TextStyle, max: usize) -> Layout {
        if self.width + word.len() <= max || self.width == 0 {
            self.put(word, style)
        } else {
            let wrapped = Layout {
                lines: self.lines.push(self.line),
                line: Seq::empty(),
                width: 0,
                ..self
            };
            let rest = word.skip(leading_space(word));
            if rest.len() > 0 {
                wrapped.put(rest, style)
            } else {
                wrapped
            }
        }
    }

    /// Several words join the layout, in order.
    pub open spec fn put_words(self, words: Seq<Seq<char>>, style: TextStyle, max: usize) -> Layout
        decreases words.len(),
    {
        if words.len() == 0 {
            self
        } else {
            self.put_words(words.drop_last(), style, max).put_word(words.last(), style, max)
        }
    }

    /// The parts of a text of code join the layout: each part after the
    /// first begins a line of its own.
    pub open spec fn put_code(self, parts: Seq<Seq<char>>, style: TextStyle) -> Layout
        decreases parts.len(),
    {
        if parts.len() == 0 {
            self
        } else if parts.len() == 1 {
            self.put(parts[0], style)
        } else {
            self.put_code(parts.drop_last(), style).break_line().put(parts.last(), style)
        }
    }

    /// A block opens.
    pub open spec fn start(self, block: BlockView, base: TextStyle) -> Layout {
        let style = block_style(block, self.top(base));
        let opened = match block {
            BlockView::Heading { .. } => {
                let broken = self.break_line();
                if broken.lines.len() > 0 {
                    Layout { lines: broken.lines.push(Seq::empty()), ..broken }
                } else {
                    broken
                }
            },
            BlockView::Paragraph => self.break_line(),
            BlockView::CodeBlock { language } => {
                let broken = Layout { in_code: true, ..self.break_line() };
                match language {
                    Some(l) => if l.len() > 0 {
                        Layout {
                            lines: broken.lines.push(
                                seq![SpanView { text: "```"@ + l, style: fence_style() }],
                            ),
                            ..broken
                        }
                    } else {
                        broken
                    },
                    None => broken,
                }
            },
            BlockView::List => {
                let broken = self.break_line();
                Layout { depth: capped_sum(broken.depth, 1), ..broken }
            },
            BlockView::Item => {
                let broken = self.break_line();
                let level = if broken.depth > 0 {
                    (broken.depth - 1) as nat
                } else {
                    0
                };
                broken.put(indent(level), plain_style()).put("\u{2022} "@, marker_style())
            },
            _ => self,
        };
        Layout { styles: opened.styles.push(style), ..opened }
    }

    /// A block closes.
    pub open spec fn end(self, block: BlockEnd) -> Layout {
        let closed = Layout {
            styles: if self.styles.len() > 0 {
                self.styles.drop_last()
            } else {
                self.styles
            },
            ..self
        };
        match block {
            BlockEnd::Heading => closed.break_line(),
            BlockEnd::Paragraph => closed.break_line(),
            BlockEnd::Item => closed.break_line(),
            BlockEnd::CodeBlock => Layout { in_code: false, ..closed.break_line() },
            BlockEnd::List => {
                let less = Layout {
                    depth: if closed.depth > 0 {
                        (closed.depth - 1) as usize
                    } else {
                        0
                    },
                    ..closed
                };
                if less.depth == 0 {
                    less.break_line()
                } else {
                    less
                }
            },
            BlockEnd::Other => closed,
        }
    }

    /// One event of the markup.
    pub open spec fn apply(self, event: MarkupView, base: TextStyle, max: usize) -> Layout {
        match event {
            MarkupView::Start(block) => self.start(block, base),
            MarkupView::End(block) => self.end(block),
            MarkupView::Text(text) => if self.in_code {
                self.put_code(code_parts(text), self.top(base))
            } else {
                self.put_words(pieces(text), self.top(base), max)
            },
            MarkupView::Code(text) => self.put_word(
                " "@ + text + " "@,
                code_style(self.top(base)),
                max,
            ),
            MarkupView::SoftBreak => self.put_word(" "@, self.top(base), max),
            MarkupView::HardBreak => self.break_line(),
            MarkupView::Other => self,
        }
    }

    /// Several events, in order.
    pub open spec fn apply_all(self, events: Seq<MarkupView>, base: TextStyle, max: usize) -> Layout
        decreases events.len(),
    {
        if events.len() == 0 {
            self
        } else {
            self.apply_all(events.drop_last(), base, max).apply(events.last(), base, max)
        }
    }
}

/// The layout before any event.
pub open spec fn blank(base: TextStyle) -> Layout {
    Layout {
        lines: Seq::empty(),
        line: Seq::empty(),
        width: 0,
        styles: seq![base],
        in_code: false,
        depth: 0,
    }
}

/// The lines that the markup `events` is laid out in, for the width `max`
/// and the style `base`.
pub open spec fn rendered(events: Seq<MarkupView>, max: usize, base: TextStyle) -> Seq<
    Seq<SpanView>,
> {
    blank(base).apply_all(events, base, max).break_line().lines
}

/// The pieces of `text`, each ended by its first white-space character.
pub fn split_pieces(text: &str) -> (out: Vec<String>)
    ensures
        texts(out@) == pieces(text@),
{
    let v = to_chars(text);
    let mut out: Vec<String> = Vec::new();
    let mut pos: usize = 0;
    assert(v@.skip(0) =~= v@);
    assert(texts(out@) + pieces(v@.skip(0)) =~= pieces(v@));
    while pos < v.len()
        invariant
            pos <= v.len(),
            v@ == text@,
            pieces(v@) == texts(out@) + pieces(v@.skip(pos as int)),
        decreases v.len() - pos,
    {
        let ghost tail = v@.skip(pos as int);
        let ghost before = texts(out@);
        let mut end: usize = pos;
        while end < v.len() && !is_space_char(v[end])
            invariant
                pos <= end <= v.len(),
                forall|i: int| pos <= i < end ==> !is_space(v[i]),
            decreases v.len() - end,
        {
            end += 1;
        }
        proof {
            assert forall|i: int| 0 <= i < end - pos implies !is_space(tail[i]) by {
                assert(tail[i] == v[pos + i]);
            }
            if end < v.len() {
                assert(tail[end - pos] == v[end as int]);
            }
            lemma_leading_word_is(tail, end - pos);
        }
        let cut: usize = if end < v.len() {
            end + 1
        } else {
            end
        };
        assert(cut - pos == piece_len(tail));
        let piece = slice_string(&v, pos, cut);
        proof {
            assert(tail.take(cut - pos) =~= v@.subrange(pos as int, cut as int));
            assert(tail.skip(cut - pos) =~= v@.skip(cut as int));
        }
        out.push(piece);
        assert(texts(out@) =~= before.push(tail.take(cut - pos)));
        assert(texts(out@) + pieces(v@.skip(cut as int)) =~= before + (seq![
            tail.take(cut - pos),
        ] + pieces(tail.skip(cut - pos))));
        pos = cut;
    }
    assert(v@.skip(pos as int) =~= Seq::<char>::empty());
    assert(texts(out@) + pieces(v@.skip(pos as int)) =~= texts(out@));
    out
}

/// The parts of `text` between its line feeds.
pub fn split_code(text: &str) -> (out: Vec<String>)
    ensures
        texts(out@) == code_parts(text@),
{
    let mut buffer = to_chars(text);
    let mut out = take_complete_lines(&mut buffer);
    let ghost before = texts(out@);
    let rest = from_chars(&buffer);
    out.push(rest);
    assert(texts(out@) =~= before.push(rest@));
    out
}

/// `n` times two blanks.
pub fn indent_text(n: usize) -> (text: String)
    ensures
        text@ == indent(n as nat),
{
    let mut text = String::new();
    let mut i: usize = 0;
    while i < n
        invariant
            i <= n,
            text@ == indent(i as nat),
        decreases n - i,
    {
        text.append("  ");
        i += 1;
    }
    text
}

/// The style inside a block that opens within the style `outer`.
pub fn style_of(block: &Block, outer: TextStyle) -> (style: TextStyle)
    ensures
        style == block_style(block@, outer),
{
    let plain = TextStyle {
        fg: None,
        bg: None,
        bold: false,
        italic: false,
        underlined: false,
        crossed_out: false,
    };
    match block {
        Block::Heading { top } => TextStyle {
            fg: Some(Paint::Rgb(88, 166, 255)),
            bold: true,
            underlined: *top,
            ..plain
        },
        Block::CodeBlock { .. } => in_code_colours(plain),
        Block::Emphasis => TextStyle { italic: true, ..outer },
        Block::Strong => TextStyle { fg: Some(Paint::White), bold: true, ..outer },
        Block::Strikethrough => TextStyle { crossed_out: true, ..outer },
        Block::Link => TextStyle { fg: Some(Paint::Blue), underlined: true, ..outer },
        _ => outer,
    }
}

/// `style` in the colours of code.
pub fn in_code_colours(style: TextStyle) -> (out: TextStyle)
    ensures
        out == code_style(style),
{
    TextStyle { fg: Some(Paint::Rgb(255, 123, 114)), bg: Some(Paint::Rgb(30, 30, 30)), ..style }
}

/// The layout while it is made.
struct Renderer {
    lines: Vec<Vec<StyledSpan>>,
    line: Vec<StyledSpan>,
    width: usize,
    styles: Vec<TextStyle>,
    in_code: bool,
    depth: usize,
}

impl View for Renderer {
    type V = Layout;

    closed spec fn view(&self) -> Layout {
        Layout {
            lines: lines_view(self.lines@),
            line: line_view(self.line@),
            width: self.width,
            styles: self.styles@,
            in_code: self.in_code,
            depth: self.depth,
        }
    }
}

impl Renderer {
    /// The style in force.
    fn top(&self, base: TextStyle) -> (style: TextStyle)
        ensures
            style == self@.top(base),
    {
        if self.styles.len() > 0 {
            self.styles[self.styles.len() - 1]
        } else {
            base
        }
    }

    /// Completes the line that is being filled, whether or not it is
    /// empty.
    fn wrap(&mut self)
        ensures
            final(self)@ == (Layout {
                lines: old(self)@.lines.push(old(self)@.line),
                line: Seq::empty(),
                width: 0,
                ..old(self)@
            }),
    {
        let ghost before = lines_view(self.lines@);
        let ghost done = line_view(self.line@);
        let mut full: Vec<StyledSpan> = Vec::new();
        std::mem::swap(&mut self.line, &mut full);
        self.lines.push(full);
        self.width = 0;
        assert(lines_view(self.lines@) =~= before.push(done));
        assert(line_view(self.line@) =~= Seq::empty());
    }

    /// Completes the line that is being filled, unless it is empty.
    fn break_line(&mut self)
        ensures
            final(self)@ == old(self)@.break_line(),
    {
        assert(line_view(self.line@).len() == self.line.len());
        if self.line.len() > 0 {
            self.wrap();
        }
    }

    /// Adds a span to the line that is being filled.
    fn put(&mut self, text: String, style: TextStyle)
        ensures
            final(self)@ == old(self)@.put(text@, style),
    {
        let ghost before = line_view(self.line@);
        let count = to_chars(text.as_str()).len();
        self.width = if count <= usize::MAX - self.width {
            self.width + count
        } else {
            usize::MAX
        };
        self.line.push(StyledSpan { text, style });
        assert(line_view(self.line@) =~= before.push(SpanView { text: text@, style }));
    }

    /// Adds a word.
    fn put_word(&mut self, word: String, style: TextStyle, max: usize)
        ensures
            final(self)@ == old(self)@.put_word(word@, style, max),
    {
        let chars = to_chars(word.as_str());
        if self.width == 0 || (chars.len() <= max && self.width <= max - chars.len()) {
            self.put(word, style);
        } else {
            self.wrap();
            let from = trim_start_index(&chars);
            if from < chars.len() {
                let rest = slice_string(&chars, from, chars.len());
                assert(rest@ =~= word@.skip(leading_space(word@)));
                self.put(rest, style);
            }
        }
    }

    /// Adds a running text, word by word.
    fn put_text(&mut self, text: &str, style: TextStyle, max: usize)
        ensures
            final(self)@ == old(self)@.put_words(pieces(text@), style, max),
    {
        let words = split_pieces(text);
        let ghost all = texts(words@);
        let ghost start = self@;
        let mut i: usize = 0;
        assert(all.take(0) =~= Seq::empty());
        while i < words.len()
            invariant
                i <= words.len(),
                all == texts(words@),
                self@ == start.put_words(all.take(i as int), style, max),
            decreases words.len() - i,
        {
            proof {
                let now = all.take(i + 1);
                assert(now.drop_last() =~= all.take(i as int));
                assert(now.last() == words[i as int]@);
            }
            self.put_word(words[i].clone(), style, max);
            i += 1;
        }
        assert(all.take(words.len() as int) =~= all);
    }

    /// Adds a text of code, part by part.
    fn put_code(&mut self, text: &str, style: TextStyle)
        ensures
            final(self)@ == old(self)@.put_code(code_parts(text@), style),
    {
        let parts = split_code(text);
        let ghost all = texts(parts@);
        let ghost start = self@;
        let mut i: usize = 0;
        assert(all.take(0) =~= Seq::empty());
        while i < parts.len()
            invariant
                i <= parts.len(),
                all == texts(parts@),
                self@ == start.put_code(all.take(i as int), style),
            decreases parts.len() - i,
        {
            proof {
                let now = all.take(i + 1);
                assert(now.drop_last() =~= all.take(i as int));
                assert(now.last() == parts[i as int]@);
                assert(now[0] == all[0]);
                if i == 0 {
                    assert(start.put_code(all.take(0), style) == start);
                }
            }
            if i > 0 {
                self.break_line();
            }
            self.put(parts[i].clone(), style);
            i += 1;
        }
        assert(all.take(parts.len() as int) =~= all);
    }

    /// Opens a block.
    fn start(&mut self, block: &Block, base: TextStyle)
        ensures
            final(self)@ == old(self)@.start(block@, base),
    {
        let style = style_of(block, self.top(base));
        match block {
            Block::Heading { .. } => {
                self.break_line();
                assert(lines_view(self.lines@).len() == self.lines.len());
                if self.lines.len() > 0 {
                    let ghost before = lines_view(self.lines@);
                    let empty: Vec<StyledSpan> = Vec::new();
                    assert(line_view(empty@) =~= Seq::empty());
                    self.lines.push(empty);
                    assert(lines_view(self.lines@) =~= before.push(Seq::empty()));
                }
            },
            Block::Paragraph => {
                self.break_line();
            },
            Block::CodeBlock { language } => {
                self.break_line();
                self.in_code = true;
                match language {
                    Some(l) => {
                        if !l.as_str().is_empty() {
                            let ghost before = lines_view(self.lines@);
                            let mut label = String::from_str("```");
                            label.append(l.as_str());
                            let mut line: Vec<StyledSpan> = Vec::new();
                            line.push(
                                StyledSpan {
                                    text: label,
                                    style: TextStyle {
                                        fg: Some(Paint::DarkGray),
                                        bg: None,
                                        bold: false,
                                        italic: false,
                                        underlined: false,
                                        crossed_out: false,
                                    },
                                },
                            );
                            assert(line_view(line@) =~= seq![
                                SpanView { text: "```"@ + l@, style: fence_style() },
                            ]);
                            self.lines.push(line);
                            assert(lines_view(self.lines@) =~= before.push(
                                seq![SpanView { text: "```"@ + l@, style: fence_style() }],
                            ));
                        }
                    },
                    None => {},
                }
            },
            Block::List => {
                self.break_line();
                self.depth = if self.depth < usize::MAX {
                    self.depth + 1
                } else {
                    usize::MAX
                };
            },
            Block::Item => {
                self.break_line();
                let level: usize = if self.depth > 0 {
                    self.depth - 1
                } else {
                    0
                };
                let plain = TextStyle {
                    fg: None,
                    bg: None,
                    bold: false,
                    italic: false,
                    underlined: false,
                    crossed_out: false,
                };
                self.put(indent_text(level), plain);
                self.put(
                    String::from_str("\u{2022} "),
                    TextStyle { fg: Some(Paint::Rgb(63, 185, 80)), ..plain },
                );
            },
            _ => {},
        }
        self.styles.push(style);
    }

    /// Closes a block.
    fn end(&mut self, block: BlockEnd)
        ensures
            final(self)@ == old(self)@.end(block),
    {
        if self.styles.len() > 0 {
            self.styles.pop();
        }
        match block {
            BlockEnd::Heading => {
                self.break_line();
            },
            BlockEnd::Paragraph => {
                self.break_line();
            },
            BlockEnd::Item => {
                self.break_line();
            },
            BlockEnd::CodeBlock => {
                self.break_line();
                self.in_code = false;
            },
            BlockEnd::List => {
                if self.depth > 0 {
                    self.depth = self.depth - 1;
                }
                if self.depth == 0 {
                    self.break_line();
                }
            },
            BlockEnd::Other => {},
        }
    }

    /// Takes one event of the markup.
    fn apply(&mut self, event: &Markup, base: TextStyle, max: usize)
        ensures
            final(self)@ == old(self)@.apply(event@, base, max),
    {
        match event {
            Markup::Start(block) => {
                self.start(block, base);
            },
            Markup::End(block) => {
                self.end(*block);
            },
            Markup::Text(text) => {
                let style = self.top(base);
                if self.in_code {
                    self.put_code(text.as_str(), style);
                } else {
                    self.put_text(text.as_str(), style, max);
                }
            },
            Markup::Code(text) => {
                let style = in_code_colours(self.top(base));
                let mut word = String::from_str(" ");
                word.append(text.as_str());
                word.append(" ");
                self.put_word(word, style, max);
            },
            Markup::SoftBreak => {
                let style = self.top(base);
                self.put_word(String::from_str(" "), style, max);
            },
            Markup::HardBreak => {
                self.break_line();
            },
            Markup::Other => {},
        }
    }
}

/// Lays out the markup `events` in lines that fit the width `width`,
/// starting from the style `base_style`.
pub fn render_markdown(events: &Vec<Markup>, width: usize, base_style: TextStyle) -> (lines: Vec<
    Vec<StyledSpan>,
>)
    ensures
        lines_view(lines@) == rendered(markup_view(events@), width, base_style),
{
    let mut styles: Vec<TextStyle> = Vec::new();
    styles.push(base_style);
    let mut renderer = Renderer {
        lines: Vec::new(),
        line: Vec::new(),
        width: 0,
        styles,
        in_code: false,
        depth: 0,
    };
    assert(lines_view(renderer.lines@) =~= Seq::empty());
    assert(line_view(renderer.line@) =~= Seq::empty());
    assert(renderer.styles@ =~= seq![base_style]);
    let ghost all = markup_view(events@);
    let mut i: usize = 0;
    assert(all.take(0) =~= Seq::empty());
    while i < events.len()
        invariant
            i <= events.len(),
            all == markup_view(events@),
            renderer@ == blank(base_style).apply_all(all.take(i as int), base_style, width),
        decreases events.len() - i,
    {
        proof {
            let now = all.take(i + 1);
            assert(now.drop_last() =~= all.take(i as int));
            assert(now.last() == events[i as int]@);
        }
        renderer.apply(&events[i], base_style, width);
        i += 1;
    }
    assert(all.take(events.len() as int) =~= all);
    renderer.break_line();
    renderer.lines
}

} // verus!
