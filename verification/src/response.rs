//! Reading the streamed response: cutting the byte stream into lines, and
//! taking from one parsed line what the agent loop needs from it.

use vstd::prelude::*;
use vstd::string::*;
use crate::executor::{ToolCall, ToolCallView};
use crate::json::{members_view, Json, JsonView, Member, MemberView};
use crate::lines::{newline, texts};
use crate::protocol::calls_view;
use crate::text::{
    find_from, first_match, lemma_first_match_from, lemma_first_match_skip, slice_chars,
    slice_string,
};

verus! {

/// What one line of the response carries.
#[derive(Clone, Debug, PartialEq, Eq)]
pub struct StreamLine {
    /// An error reported by the service.
    pub error: Option<String>,
    /// Reasoning text from a field of its own.
    pub reasoning: Option<String>,
    /// Content text, which may hold reasoning spans.
    pub content: Option<String>,
    /// Structured tool calls.
    pub calls: Vec<ToolCall>,
}

pub struct StreamLineView {
    pub error: Option<Seq<char>>,
    pub reasoning: Option<Seq<char>>,
    pub content: Option<Seq<char>>,
    pub calls: Seq<ToolCallView>,
}

/// The view of an optional string.
pub open spec fn opt_view(text: Option<String>) -> Option<Seq<char>> {
    match text {
        Some(t) => Some(t@),
        None => None,
    }
}

impl View for StreamLine {
    type V = StreamLineView;

    open spec fn view(&self) -> StreamLineView {
        StreamLineView {
            error: opt_view(self.error),
            reasoning: opt_view(self.reasoning),
            content: opt_view(self.content),
            calls: calls_view(self.calls@),
        }
    }
}

/// The text, unless it is absent or empty.
pub open spec fn nonempty(text: Option<Seq<char>>) -> Option<Seq<char>> {
    match text {
        Some(t) => if t.len() > 0 {
            Some(t)
        } else {
            None
        },
        None => None,
    }
}

/// The arguments of a call: the field `arguments`, or an empty object where
/// there is none.
pub open spec fn arguments_of(holder: JsonView) -> JsonView {
    match holder.field("arguments"@) {
        Some(a) => a,
        None => JsonView::Object(Seq::empty()),
    }
}

/// The call that a value in wire shape describes: an object whose field
/// `function` names the tool and carries the arguments.
pub open spec fn call_of(item: JsonView) -> Option<ToolCallView> {
    match item.field("function"@) {
        Some(f) => match f.text_field("name"@) {
            Some(name) => Some(ToolCallView { name, arguments: arguments_of(f) }),
            None => None,
        },
        None => None,
    }
}

/// The calls among `items`, in order; an item that describes no call is
/// passed over.
pub open spec fn calls_of(items: Seq<JsonView>) -> Seq<ToolCallView>
    decreases items.len(),
{
    if items.len() == 0 {
        Seq::empty()
    } else {
        match call_of(items.last()) {
            Some(c) => calls_of(items.drop_last()).push(c),
            None => calls_of(items.drop_last()),
        }
    }
}

/// The reasoning text of a message: its field `thinking` if it has one,
/// else its field `reasoning_content`; none where the text is empty.
pub open spec fn reasoning_of(message: JsonView) -> Option<Seq<char>> {
    match message.text_field("thinking"@) {
        Some(t) => nonempty(Some(t)),
        None => nonempty(message.text_field("reasoning_content"@)),
    }
}

/// What a parsed line carries. A line with a `message` is a partial
/// message; one without is a single-shot body, whose `response` is content.
pub open spec fn read_line(line: JsonView) -> StreamLineView {
    match line.field("message"@) {
        Some(m) => StreamLineView {
            error: line.text_field("error"@),
            reasoning: reasoning_of(m),
            content: nonempty(m.text_field("content"@)),
            calls: match m.field("tool_calls"@) {
                Some(JsonView::Array(items)) => calls_of(items),
                _ => Seq::empty(),
            },
        },
        None => StreamLineView {
            error: line.text_field("error"@),
            reasoning: None,
            content: nonempty(line.text_field("response"@)),
            calls: Seq::empty(),
        },
    }
}

/// The call that an action recovered from free text describes: a call in
/// wire shape; or an object that names its tool under `tool` or `name`; or
/// an object with a `command`, which is a call of the shell tool.
pub open spec fn action_call(action: JsonView) -> Option<ToolCallView> {
    if call_of(action) is Some {
        call_of(action)
    } else if action.text_field("tool"@) is Some {
        Some(ToolCallView { name: action.text_field("tool"@)->0, arguments: arguments_of(action) })
    } else if action.text_field("name"@) is Some {
        Some(ToolCallView { name: action.text_field("name"@)->0, arguments: arguments_of(action) })
    } else if action.text_field("command"@) is Some {
        Some(
            ToolCallView {
                name: "run_command"@,
                arguments: JsonView::Object(
                    seq![
                        MemberView {
                            key: "command"@,
                            value: JsonView::Text(action.text_field("command"@)->0),
                        },
                    ],
                ),
            },
        )
    } else {
        None
    }
}

/// The complete lines at the front of `buf`, each without its line feed,
/// and what is left after the last line feed.
pub open spec fn split_complete(buf: Seq<char>) -> (Seq<Seq<char>>, Seq<char>)
    decreases buf.len(),
    via split_complete_decreases
{
    match first_match(buf, newline()) {
        Some(i) => {
            let later = split_complete(buf.skip(i + 1));
            (seq![buf.take(i)] + later.0, later.1)
        },
        None => (Seq::empty(), buf),
    }
}

#[via_fn]
proof fn split_complete_decreases(buf: Seq<char>) {
    lemma_first_match_from(buf, newline(), 0);
}

/// The text, unless it is absent or empty.
pub fn keep_nonempty(text: Option<String>) -> (kept: Option<String>)
    ensures
        opt_view(kept) == nonempty(opt_view(text)),
{
    match text {
        Some(t) => if t.as_str().is_empty() {
            None
        } else {
            Some(t)
        },
        None => None,
    }
}

/// The arguments of a call.
pub fn read_arguments(holder: &Json) -> (args: Json)
    ensures
        args@ == arguments_of(holder@),
{
    match holder.get("arguments") {
        Some(a) => a.deep_clone(),
        None => {
            let fields: Vec<Member> = Vec::new();
            assert(members_view(fields@) =~= Seq::empty());
            Json::object(fields)
        },
    }
}

/// The call that a value in wire shape describes.
pub fn read_call(item: &Json) -> (call: Option<ToolCall>)
    ensures
        match call {
            Some(c) => call_of(item@) == Some(c@),
            None => call_of(item@) is None,
        },
{
    match item.get("function") {
        Some(f) => match f.text_field("name") {
            Some(name) => Some(ToolCall { name, arguments: read_arguments(f) }),
            None => None,
        },
        None => None,
    }
}

/// The calls among `items`, in order.
pub fn read_calls(items: &Vec<Json>) -> (calls: Vec<ToolCall>)
    ensures
        calls_view(calls@) == calls_of(crate::json::values_view(items@)),
{
    let ghost all = crate::json::values_view(items@);
    let mut calls: Vec<ToolCall> = Vec::new();
    let mut i: usize = 0;
    assert(all.take(0) =~= Seq::empty());
    assert(calls_view(calls@) =~= Seq::empty());
    while i < items.len()
        invariant
            i <= items.len(),
            all == crate::json::values_view(items@),
            calls_view(calls@) == calls_of(all.take(i as int)),
        decreases items.len() - i,
    {
        let ghost before = calls_view(calls@);
        proof {
            let now = all.take(i + 1);
            assert(now.drop_last() =~= all.take(i as int));
            assert(now.last() == items[i as int]@);
        }
        match read_call(&items[i]) {
            Some(c) => {
                let ghost added = c@;
                calls.push(c);
                assert(calls_view(calls@) =~= before.push(added));
            },
            None => {},
        }
        i += 1;
    }
    assert(all.take(items.len() as int) =~= all);
    calls
}

/// What a parsed line carries.
pub fn read_stream_line(line: &Json) -> (out: StreamLine)
    ensures
        out@ == read_line(line@),
{
    let error = line.text_field("error");
    match line.get("message") {
        Some(m) => {
            let reasoning = match m.text_field("thinking") {
                Some(t) => keep_nonempty(Some(t)),
                None => keep_nonempty(m.text_field("reasoning_content")),
            };
            let content = keep_nonempty(m.text_field("content"));
            let calls = match m.get("tool_calls") {
                Some(list) => match list.as_array() {
                    Some(items) => read_calls(items),
                    None => {
                        let none: Vec<ToolCall> = Vec::new();
                        assert(calls_view(none@) =~= Seq::empty());
                        none
                    },
                },
                None => {
                    let none: Vec<ToolCall> = Vec::new();
                    assert(calls_view(none@) =~= Seq::empty());
                    none
                },
            };
            StreamLine { error, reasoning, content, calls }
        },
        None => {
            let content = keep_nonempty(line.text_field("response"));
            let calls: Vec<ToolCall> = Vec::new();
            assert(calls_view(calls@) =~= Seq::empty());
            StreamLine { error, reasoning: None, content, calls }
        },
    }
}

/// The call that an action recovered from free text describes.
pub fn read_action(action: &Json) -> (call: Option<ToolCall>)
    ensures
        match call {
            Some(c) => action_call(action@) == Some(c@),
            None => action_call(action@) is None,
        },
{
    match read_call(action) {
        Some(c) => {
            return Some(c);
        },
        None => {},
    }
    match action.text_field("tool") {
        Some(name) => {
            return Some(ToolCall { name, arguments: read_arguments(action) });
        },
        None => {},
    }
    match action.text_field("name") {
        Some(name) => {
            return Some(ToolCall { name, arguments: read_arguments(action) });
        },
        None => {},
    }
    match action.text_field("command") {
        Some(cmd) => {
            let mut fields: Vec<Member> = Vec::new();
            fields.push(Member::text("command", cmd.as_str()));
            assert(members_view(fields@) =~= seq![
                MemberView { key: "command"@, value: JsonView::Text(cmd@) },
            ]);
            Some(ToolCall { name: String::from_str("run_command"), arguments: Json::object(fields) })
        },
        None => None,
    }
}

/// Cuts the complete lines off the front of `buffer` and returns them;
/// what follows the last line feed stays in the buffer.
pub fn take_complete_lines(buffer: &mut Vec<char>) -> (out: Vec<String>)
    ensures
        texts(out@) == split_complete(old(buffer)@).0,
        final(buffer)@ == split_complete(old(buffer)@).1,
{
    let mut nl: Vec<char> = Vec::new();
    nl.push('\n');
    assert(nl@ =~= newline());
    let mut out: Vec<String> = Vec::new();
    let mut pos: usize = 0;
    let ghost whole = buffer@;
    let mut done = false;
    assert(whole.skip(0) =~= whole);
    assert(texts(out@) + split_complete(whole).0 =~= split_complete(whole).0);
    while !done
        invariant
            pos <= buffer.len(),
            buffer@ == whole,
            nl@ == newline(),
            split_complete(whole).0 == texts(out@) + split_complete(whole.skip(pos as int)).0,
            split_complete(whole).1 == split_complete(whole.skip(pos as int)).1,
            done ==> split_complete(whole.skip(pos as int)) == (
                Seq::<Seq<char>>::empty(),
                whole.skip(pos as int),
            ),
        decreases buffer.len() - pos, (if done { 0int } else { 1int }),
    {
        let ghost tail = whole.skip(pos as int);
        let ghost before = texts(out@);
        proof {
            lemma_first_match_skip(whole, nl@, pos as int);
            lemma_first_match_from(whole, nl@, pos as int);
        }
        match find_from(buffer, &nl, pos) {
            Some(i) => {
                let line = slice_string(buffer, pos, i);
                proof {
                    assert(tail.take(i - pos) =~= whole.subrange(pos as int, i as int));
                    assert(tail.skip(i - pos + 1) =~= whole.skip(i + 1));
                }
                out.push(line);
                assert(texts(out@) =~= before.push(tail.take(i - pos)));
                assert(texts(out@) + split_complete(whole.skip(i + 1)).0 =~= before + (seq![
                    tail.take(i - pos),
                ] + split_complete(tail.skip(i - pos + 1)).0));
                pos = i + 1;
            },
            None => {
                done = true;
            },
        }
    }
    let rest = slice_chars(buffer, pos, buffer.len());
    assert(rest@ =~= whole.skip(pos as int));
    assert(texts(out@) + Seq::<Seq<char>>::empty() =~= texts(out@));
    *buffer = rest;
    out
}

} // verus!
