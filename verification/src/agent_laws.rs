//! Laws of the agent loop: the cap on turns holds for every run and is hit
//! exactly by a model that always asks for a tool; and once the service has
//! refused tools, no later request carries any.

use vstd::prelude::*;
use crate::agent::{
    cap_notice, fallback_notice, initial, AgentActionView, AgentEventView, AgentView, Phase,
    Terminal,
};
use crate::chat::ChatMessage;
use crate::protocol::{plain, protocol_role, transcript, Role};
use crate::chat::AppEventView;
use crate::executor::ToolCallView;
use crate::json::{first_key, parsed, JsonView};
use crate::protocol::{request_body, MessageView};
use crate::response::{read_line, split_complete};
use crate::stream::Piece;
use crate::stream_laws::lemma_push_wf;
use crate::text::trim;

verus! {

/// What a stretch of stream handling may change: the filter, the answer
/// and the batch of the turn, and the unfinished line. Everything else stays.
pub open spec fn same_run(a: AgentView, b: AgentView) -> bool {
    &&& a.model == b.model
    &&& a.max_turns == b.max_turns
    &&& a.scan_tags == b.scan_tags
    &&& a.phase == b.phase
    &&& a.turns == b.turns
    &&& a.tools_disabled == b.tools_disabled
    &&& a.tools == b.tools
    &&& a.conversation == b.conversation
    &&& a.next == b.next
}

/// The calls that one line of the stream carries.
pub open spec fn line_calls(line: Seq<char>) -> Seq<ToolCallView> {
    if trim(line).len() == 0 {
        Seq::empty()
    } else {
        match parsed(line) {
            Some(value) => read_line(value).calls,
            None => Seq::empty(),
        }
    }
}

/// The calls that several lines of the stream carry, in order.
pub open spec fn lines_calls(lines: Seq<Seq<char>>) -> Seq<ToolCallView>
    decreases lines.len(),
{
    if lines.len() == 0 {
        Seq::empty()
    } else {
        lines_calls(lines.drop_last()) + line_calls(lines.last())
    }
}

/// The calls that a response carries whose whole stream is `chunk`.
pub open spec fn calls_in(chunk: Seq<char>) -> Seq<ToolCallView> {
    lines_calls(split_complete(chunk).0) + line_calls(split_complete(chunk).1)
}

/// Whether the action sends a request.
pub open spec fn is_request(action: AgentActionView) -> bool {
    action is SendRequest
}

/// Whether a request body names no tools.
pub open spec fn omits_tools(body: JsonView) -> bool {
    !body.has_key("tools"@)
}

/// Showing released pieces changes the answer of the turn alone, and emits
/// nothing but progress.
pub proof fn lemma_release_frame(state: AgentView, released: Seq<Piece>)
    ensures
        same_run(state, state.release(released).0),
        state.release(released).0.filter == state.filter,
        state.release(released).0.batch == state.batch,
        state.release(released).0.pending == state.pending,
        forall|k: int|
            0 <= k < state.release(released).1.len() ==> #[trigger] state.release(released).1[k]
                is Emit,
    decreases released.len(),
{
    if released.len() > 0 {
        lemma_release_frame(state, released.drop_last());
    }
}

/// Taking in one line changes only the filter, the answer and the batch of
/// the turn; the batch grows by the calls of the line; nothing but progress
/// is emitted.
pub proof fn lemma_take_line_frame(state: AgentView, line: Seq<char>)
    ensures
        same_run(state, state.take_line(line).0),
        state.filter.wf() ==> state.take_line(line).0.filter.wf(),
        state.take_line(line).0.batch == state.batch + line_calls(line),
        state.take_line(line).0.pending == state.pending,
        forall|k: int|
            0 <= k < state.take_line(line).1.len() ==> #[trigger] state.take_line(line).1[k]
                is Emit,
{
    if trim(line).len() == 0 {
        assert(state.batch + line_calls(line) =~= state.batch);
    } else {
        match parsed(line) {
            Some(value) => {
                let read = read_line(value);
                let pushed = match read.content {
                    Some(c) => state.filter.push(c),
                    None => (state.filter, Seq::empty()),
                };
                if read.content is Some && state.filter.wf() {
                    lemma_push_wf(state.filter, read.content->0);
                }
                lemma_release_frame(AgentView { filter: pushed.0, ..state }, pushed.1);
            },
            None => {
                assert(state.batch + line_calls(line) =~= state.batch);
            },
        }
    }
}

/// Taking in several lines changes only the filter, the answer and the
/// batch of the turn; the batch grows by the calls of the lines.
pub proof fn lemma_take_lines_frame(state: AgentView, lines: Seq<Seq<char>>)
    ensures
        same_run(state, state.take_lines(lines).0),
        state.filter.wf() ==> state.take_lines(lines).0.filter.wf(),
        state.take_lines(lines).0.batch == state.batch + lines_calls(lines),
        state.take_lines(lines).0.pending == state.pending,
        forall|k: int|
            0 <= k < state.take_lines(lines).1.len() ==> #[trigger] state.take_lines(lines).1[k]
                is Emit,
    decreases lines.len(),
{
    if lines.len() == 0 {
        assert(state.batch + lines_calls(lines) =~= state.batch);
    } else {
        lemma_take_lines_frame(state, lines.drop_last());
        let before = state.take_lines(lines.drop_last());
        lemma_take_line_frame(before.0, lines.last());
        assert(state.batch + lines_calls(lines.drop_last()) + line_calls(lines.last())
            =~= state.batch + lines_calls(lines));
    }
}

/// Every step keeps the loop well-formed: no more turns are begun than the
/// cap allows.
pub proof fn lemma_step_wf(state: AgentView, event: AgentEventView)
    requires
        state.wf(),
    ensures
        state.step(event).0.wf(),
        state.step(event).0.max_turns == state.max_turns,
        state.turns <= state.step(event).0.turns <= state.turns + 1,
{
    crate::stream::lemma_delimiter_len(false);
    match (state.phase, event) {
        (Phase::Streaming, AgentEventView::StreamChunk(chunk)) => {
            let cut = split_complete(state.pending + chunk);
            lemma_take_lines_frame(AgentView { pending: cut.1, ..state }, cut.0);
        },
        (Phase::Streaming, AgentEventView::StreamEnd) => {
            lemma_stream_end_frame(state);
        },
        _ => {},
    }
}

/// The end of the stream keeps the turn counter and the cap, and leaves the
/// filter as a fresh turn finds it.
proof fn lemma_stream_end_frame(state: AgentView)
    requires
        state.wf(),
    ensures
        state.on_stream_end().0.wf(),
        state.on_stream_end().0.turns == state.turns,
        state.on_stream_end().0.max_turns == state.max_turns,
        state.on_stream_end().0.tools_disabled == state.tools_disabled,
        forall|k: int|
            0 <= k < state.on_stream_end().1.len() ==> !is_request(
                #[trigger] state.on_stream_end().1[k],
            ),
{
    crate::stream::lemma_delimiter_len(false);
    let cleared = AgentView { pending: Seq::empty(), ..state };
    lemma_take_line_frame(cleared, state.pending);
    let last = cleared.take_line(state.pending);
    let flushed = last.0.filter.finish();
    lemma_release_frame(AgentView { filter: flushed.0, ..last.0 }, flushed.1);
}

/// At the cap the next turn does not begin: the run ends, and says that the
/// cap was reached.
pub proof fn lemma_cap_ends_run(state: AgentView, text: Seq<char>)
    requires
        state.phase is Dispatching,
        state.next + 1 >= state.batch.len(),
        state.turns >= state.max_turns,
    ensures
        state.step(AgentEventView::ToolResult(text)).0.phase == Phase::Finished(
            Terminal::CapReached,
        ),
        state.step(AgentEventView::ToolResult(text)).1 == seq![
            AgentActionView::Emit(AppEventView::CommandEnd(text)),
            AgentActionView::Emit(AppEventView::Error(cap_notice(state.max_turns))),
            AgentActionView::Finish(Terminal::CapReached),
        ],
{
    let out = state.step(AgentEventView::ToolResult(text));
    assert(out.1 =~= seq![
        AgentActionView::Emit(AppEventView::CommandEnd(text)),
        AgentActionView::Emit(AppEventView::Error(cap_notice(state.max_turns))),
        AgentActionView::Finish(Terminal::CapReached),
    ]);
}

/// Once a run is over no event changes it or calls for any action.
pub proof fn lemma_finished_is_final(state: AgentView, event: AgentEventView)
    requires
        state.phase is Finished,
    ensures
        state.step(event) == (state, Seq::<AgentActionView>::empty()),
{
}

/// A request built without tool schemas names no tools; one built with
/// them does.
pub proof fn lemma_request_names_tools(
    model: Seq<char>,
    messages: Seq<MessageView>,
    tools: Seq<JsonView>,
)
    ensures
        omits_tools(request_body(model, messages, None)),
        !omits_tools(request_body(model, messages, Some(tools))),
{
    reveal_strlit("model");
    reveal_strlit("messages");
    reveal_strlit("stream");
    reveal_strlit("tools");
    assert("model"@[0] != "tools"@[0]);
    assert("messages"@[0] != "tools"@[0]);
    assert("stream"@[0] != "tools"@[0]);
    let without = request_body(model, messages, None)->Object_0;
    assert(without.len() == 3);
    assert(first_key(without, "tools"@, 3) is None);
    assert(first_key(without, "tools"@, 2) is None);
    assert(first_key(without, "tools"@, 1) is None);
    assert(first_key(without, "tools"@, 0) is None);
    let with = request_body(model, messages, Some(tools))->Object_0;
    assert(with.len() == 4);
    assert(with[2].key == "tools"@);
    assert(first_key(with, "tools"@, 2) == Some(2int));
    assert(first_key(with, "tools"@, 1) == Some(2int));
    assert(first_key(with, "tools"@, 0) == Some(2int));
}

/// The fallback: when the service refuses a request that carried tools,
/// tools are disabled, one notice is shown, and the same turn's request is
/// sent once more without tools. The turn counter does not move.
pub proof fn lemma_fallback_retries_once(state: AgentView, body: Seq<char>)
    requires
        state.phase is AwaitResponse,
        !state.tools_disabled,
    ensures
        state.step(AgentEventView::ResponseRejected(body)).0 == (AgentView {
            tools_disabled: true,
            ..state
        }),
        state.step(AgentEventView::ResponseRejected(body)).1 == seq![
            AgentActionView::Emit(AppEventView::Thinking(fallback_notice(state.model))),
            AgentActionView::SendRequest(request_body(state.model, state.conversation, None)),
        ],
        omits_tools(request_body(state.model, state.conversation, None)),
{
    lemma_request_names_tools(state.model, state.conversation, state.tools);
}

/// A second refusal is not retried: with tools disabled already, the run
/// ends with an error and no request goes out.
pub proof fn lemma_no_second_retry(state: AgentView, body: Seq<char>)
    requires
        state.phase is AwaitResponse,
        state.tools_disabled,
    ensures
        state.step(AgentEventView::ResponseRejected(body)).0.phase == Phase::Finished(
            Terminal::Error,
        ),
        forall|k: int|
            0 <= k < state.step(AgentEventView::ResponseRejected(body)).1.len() ==> !is_request(
                #[trigger] state.step(AgentEventView::ResponseRejected(body)).1[k],
            ),
{
}

/// Once tools are disabled they stay disabled, and every request that a
/// step sends names no tools.
pub proof fn lemma_tools_stay_disabled(state: AgentView, event: AgentEventView)
    requires
        state.wf(),
        state.tools_disabled,
    ensures
        state.step(event).0.tools_disabled,
        forall|k: int|
            0 <= k < state.step(event).1.len() ==> (#[trigger] state.step(event).1[k]
                matches AgentActionView::SendRequest(sent) ==> omits_tools(sent)),
{
    let out = state.step(event);
    match (state.phase, event) {
        (Phase::AwaitTools, AgentEventView::ToolsListed(tools)) => {
            lemma_request_names_tools(out.0.model, out.0.conversation, out.0.tools);
        },
        (Phase::Streaming, AgentEventView::StreamChunk(chunk)) => {
            let cut = split_complete(state.pending + chunk);
            lemma_take_lines_frame(AgentView { pending: cut.1, ..state }, cut.0);
        },
        (Phase::Streaming, AgentEventView::StreamEnd) => {
            lemma_stream_end_frame(state);
        },
        (Phase::Dispatching, AgentEventView::ToolResult(text)) => {
            lemma_request_names_tools(out.0.model, out.0.conversation, out.0.tools);
        },
        (Phase::Dispatching, AgentEventView::ToolDropped) => {
            lemma_request_names_tools(out.0.model, out.0.conversation, out.0.tools);
        },
        _ => {},
    }
}

/// For the rest of a run after tools were disabled, whatever happens, no
/// request names tools.
pub proof fn lemma_run_omits_tools(state: AgentView, events: Seq<AgentEventView>)
    requires
        state.wf(),
        state.tools_disabled,
    ensures
        state.run(events).0.wf(),
        state.run(events).0.tools_disabled,
        forall|k: int|
            0 <= k < state.run(events).1.len() ==> (#[trigger] state.run(events).1[k]
                matches AgentActionView::SendRequest(sent) ==> omits_tools(sent)),
    decreases events.len(),
{
    if events.len() > 0 {
        lemma_run_omits_tools(state, events.drop_last());
        let before = state.run(events.drop_last());
        lemma_step_wf(before.0, events.last());
        lemma_tools_stay_disabled(before.0, events.last());
        let last = before.0.step(events.last());
        assert forall|k: int| 0 <= k < state.run(events).1.len() implies (
        #[trigger] state.run(events).1[k] matches AgentActionView::SendRequest(sent)
            ==> omits_tools(sent)) by {
            if k < before.1.len() {
                assert(state.run(events).1[k] == before.1[k]);
            } else {
                assert(state.run(events).1[k] == last.1[k - before.1.len()]);
            }
        }
    }
}

/// Over any run the turn counter never passes the cap.
pub proof fn lemma_run_within_cap(state: AgentView, events: Seq<AgentEventView>)
    requires
        state.wf(),
    ensures
        state.run(events).0.wf(),
        state.run(events).0.max_turns == state.max_turns,
        state.turns <= state.run(events).0.turns <= state.max_turns,
    decreases events.len(),
{
    if events.len() > 0 {
        lemma_run_within_cap(state, events.drop_last());
        lemma_step_wf(state.run(events.drop_last()).0, events.last());
    }
}

/// Running `a + b` is running `a` and then `b`.
pub proof fn lemma_run_concat(state: AgentView, a: Seq<AgentEventView>, b: Seq<AgentEventView>)
    ensures
        state.run(a + b).0 == state.run(a).0.run(b).0,
        state.run(a + b).1 == state.run(a).1 + state.run(a).0.run(b).1,
    decreases b.len(),
{
    if b.len() == 0 {
        assert(a + b =~= a);
        assert(state.run(a).1 + Seq::<AgentActionView>::empty() =~= state.run(a).1);
    } else {
        lemma_run_concat(state, a, b.drop_last());
        assert((a + b).drop_last() =~= a + b.drop_last());
        assert((a + b).last() == b.last());
        let mid = state.run(a);
        let before = mid.0.run(b.drop_last());
        let last = before.0.step(b.last());
        assert(state.run(a + b).1 =~= mid.1 + (before.1 + last.1));
    }
}

/// Running a single event is one step.
pub proof fn lemma_run_one(state: AgentView, event: AgentEventView)
    ensures
        state.run(seq![event]) == state.step(event),
{
    let events = seq![event];
    assert(events.drop_last() =~= Seq::<AgentEventView>::empty());
    assert(state.run(Seq::<AgentEventView>::empty()) == (
        state,
        Seq::<AgentActionView>::empty(),
    ));
    assert(events.last() == event);
    assert(Seq::<AgentActionView>::empty() + state.step(event).1 =~= state.step(event).1);
}

/// The events of one turn in which the service streams `chunk` and the
/// tool that is called answers `result`.
pub open spec fn tool_turn(chunk: Seq<char>, result: Seq<char>) -> Seq<AgentEventView> {
    seq![
        AgentEventView::ResponseOk,
        AgentEventView::StreamChunk(chunk),
        AgentEventView::StreamEnd,
        AgentEventView::ToolResult(result),
    ]
}

/// The events of several such turns, one after the other.
pub open spec fn tool_turns(chunks: Seq<Seq<char>>, results: Seq<Seq<char>>) -> Seq<
    AgentEventView,
>
    decreases chunks.len(),
{
    if chunks.len() == 0 || results.len() == 0 {
        Seq::empty()
    } else {
        tool_turns(chunks.drop_last(), results.drop_last()) + tool_turn(
            chunks.last(),
            results.last(),
        )
    }
}

/// A turn has begun and nothing of its response has arrived.
pub open spec fn turn_open(state: AgentView) -> bool {
    &&& state.wf()
    &&& state.phase is AwaitResponse
    &&& state.pending.len() == 0
    &&& state.batch.len() == 0
}

/// One turn of a model that asks for one tool call: the call is made, its
/// result joins the transcript, and the next turn begins, unless the cap is
/// reached: then the run ends there.
pub proof fn lemma_tool_turn(state: AgentView, chunk: Seq<char>, result: Seq<char>)
    requires
        turn_open(state),
        calls_in(chunk).len() == 1,
    ensures
        ({
            let out = state.run(tool_turn(chunk, result));
            &&& out.0.max_turns == state.max_turns
            &&& out.0.conversation.len() == state.conversation.len() + 2
            &&& out.1.len() > 0
            &&& if state.turns < state.max_turns {
                &&& turn_open(out.0)
                &&& out.0.turns == state.turns + 1
                &&& out.1.last() is SendRequest
            } else {
                &&& out.0.phase == Phase::Finished(Terminal::CapReached)
                &&& out.0.turns == state.turns
                &&& out.1.last() == AgentActionView::Finish(Terminal::CapReached)
            }
        }),
{
    crate::stream::lemma_delimiter_len(false);
    let e1 = AgentEventView::ResponseOk;
    let e2 = AgentEventView::StreamChunk(chunk);
    let e3 = AgentEventView::StreamEnd;
    let e4 = AgentEventView::ToolResult(result);
    assert(tool_turn(chunk, result) =~= seq![e1] + seq![e2] + seq![e3] + seq![e4]);
    lemma_run_concat(state, seq![e1] + seq![e2] + seq![e3], seq![e4]);
    lemma_run_concat(state, seq![e1] + seq![e2], seq![e3]);
    lemma_run_concat(state, seq![e1], seq![e2]);
    lemma_run_one(state, e1);
    let s1 = state.step(e1).0;
    lemma_run_one(s1, e2);
    let s2 = s1.step(e2).0;
    lemma_run_one(s2, e3);
    let s3 = s2.step(e3).0;
    lemma_run_one(s3, e4);
    let s4 = s3.step(e4);
    // The chunk arrives: its complete lines give their calls.
    assert(state.pending + chunk =~= chunk);
    let cut = split_complete(chunk);
    lemma_take_lines_frame(AgentView { pending: cut.1, ..s1 }, cut.0);
    assert(s2.batch =~= lines_calls(cut.0));
    assert(s2.pending == cut.1);
    // The stream ends: the rest is a line too, and the one call is dispatched.
    let cleared = AgentView { pending: Seq::empty(), ..s2 };
    lemma_take_line_frame(cleared, s2.pending);
    let last = cleared.take_line(s2.pending);
    assert(last.0.batch =~= calls_in(chunk));
    let flushed = last.0.filter.finish();
    lemma_release_frame(AgentView { filter: flushed.0, ..last.0 }, flushed.1);
    let shown = (AgentView { filter: flushed.0, ..last.0 }).release(flushed.1);
    assert(shown.0.batch.len() == 1);
    assert(s3 == shown.0.conclude().0);
    assert(s3.phase is Dispatching);
    assert(s3.next == 0);
    assert(s3.batch.len() == 1);
    assert(s3.conversation.len() == state.conversation.len() + 1);
    // The result comes back: the batch is through, and the next turn begins.
    assert(s4.1.len() > 0);
}

/// A model that asks for a tool call in every turn: the loop runs its turns
/// one after the other and, when as many turns have been run as the cap
/// allows, ends with the report that the cap was reached. It ends neither
/// sooner nor later.
pub proof fn lemma_always_calling_reaches_cap(
    state: AgentView,
    chunks: Seq<Seq<char>>,
    results: Seq<Seq<char>>,
)
    requires
        turn_open(state),
        chunks.len() == results.len(),
        chunks.len() <= state.max_turns - state.turns + 1,
        forall|i: int| 0 <= i < chunks.len() ==> (#[trigger] calls_in(chunks[i])).len() == 1,
    ensures
        ({
            let out = state.run(tool_turns(chunks, results));
            &&& out.0.max_turns == state.max_turns
            &&& out.0.conversation.len() == state.conversation.len() + 2 * chunks.len()
            &&& if chunks.len() <= state.max_turns - state.turns {
                &&& turn_open(out.0)
                &&& out.0.turns == state.turns + chunks.len()
            } else {
                &&& out.0.phase == Phase::Finished(Terminal::CapReached)
                &&& out.0.turns == state.max_turns
                &&& out.1.len() > 0
                &&& out.1.last() == AgentActionView::Finish(Terminal::CapReached)
            }
        }),
    decreases chunks.len(),
{
    if chunks.len() > 0 {
        let earlier = tool_turns(chunks.drop_last(), results.drop_last());
        let turn = tool_turn(chunks.last(), results.last());
        assert forall|i: int| 0 <= i < chunks.drop_last().len() implies (#[trigger] calls_in(
            chunks.drop_last()[i],
        )).len() == 1 by {
            assert(chunks.drop_last()[i] == chunks[i]);
        }
        lemma_always_calling_reaches_cap(state, chunks.drop_last(), results.drop_last());
        lemma_run_concat(state, earlier, turn);
        let before = state.run(earlier);
        assert(calls_in(chunks[chunks.len() - 1]).len() == 1);
        lemma_tool_turn(before.0, chunks.last(), results.last());
        let after = before.0.run(turn);
        assert((before.1 + after.1).last() == after.1.last());
    }
}

/// A whole run with a model that asks for a tool call in every turn: after
/// the tools are listed and as many turns as the cap allows, the run has
/// ended with the report that the cap was reached.
pub proof fn lemma_run_ends_at_cap(
    start: AgentView,
    tools: Seq<crate::tools::ToolDefinitionView>,
    chunks: Seq<Seq<char>>,
    results: Seq<Seq<char>>,
)
    requires
        start.phase is Created,
        start.turns == 0,
        start.max_turns >= 1,
        start.filter.wf(),
        chunks.len() == start.max_turns,
        results.len() == start.max_turns,
        forall|i: int| 0 <= i < chunks.len() ==> (#[trigger] calls_in(chunks[i])).len() == 1,
    ensures
        ({
            let events = seq![AgentEventView::Start, AgentEventView::ToolsListed(tools)]
                + tool_turns(chunks, results);
            let out = start.run(events);
            &&& out.0.phase == Phase::Finished(Terminal::CapReached)
            &&& out.0.turns == start.max_turns
            &&& out.1.len() > 0
            &&& out.1.last() == AgentActionView::Finish(Terminal::CapReached)
        }),
{
    crate::stream::lemma_delimiter_len(false);
    let e1 = AgentEventView::Start;
    let e2 = AgentEventView::ToolsListed(tools);
    let head = seq![e1, e2];
    assert(head =~= seq![e1] + seq![e2]);
    lemma_run_concat(start, seq![e1], seq![e2]);
    lemma_run_one(start, e1);
    let s1 = start.step(e1).0;
    lemma_run_one(s1, e2);
    let s2 = s1.step(e2).0;
    assert(turn_open(s2));
    assert(s2.turns == 1);
    lemma_run_concat(start, head, tool_turns(chunks, results));
    lemma_always_calling_reaches_cap(s2, chunks, results);
    let before = start.run(head);
    let after = s2.run(tool_turns(chunks, results));
    assert((before.1 + after.1).last() == after.1.last());
}

/// The message carries the calls that tool results answer, or is such a
/// result itself.
pub open spec fn awaits_result(message: MessageView) -> bool {
    message.role is Tool || (message.role is Assistant && message.tool_calls.len() > 0)
}

/// Every tool result in the transcript stands behind an assistant message
/// that carries calls, with nothing but other results between them.
pub open spec fn results_follow_calls(conversation: Seq<MessageView>) -> bool {
    forall|i: int|
        0 <= i < conversation.len() && (#[trigger] conversation[i]).role is Tool ==> i > 0
            && awaits_result(conversation[i - 1])
}

/// The transcript is in order, and while a call is in flight it ends in the
/// message that the call's result will follow.
pub open spec fn coherent(state: AgentView) -> bool {
    &&& results_follow_calls(state.conversation)
    &&& state.phase is Dispatching ==> state.conversation.len() > 0 && awaits_result(
        state.conversation.last(),
    )
}

/// A run starts with a transcript in order: it holds no tool results yet.
pub proof fn lemma_initial_coherent(
    model: Seq<char>,
    prompt: Seq<char>,
    max_turns: nat,
    scan_tags: bool,
    history: Seq<ChatMessage>,
)
    ensures
        coherent(initial(model, prompt, max_turns, scan_tags, history)),
        initial(model, prompt, max_turns, scan_tags, history).wf(),
{
    crate::stream::lemma_delimiter_len(false);
    let conversation = transcript(prompt, history);
    assert forall|i: int| 0 <= i < conversation.len() implies !((#[trigger] conversation[i]).role
        is Tool) by {
        if i > 0 {
            assert(conversation[i] == plain(
                protocol_role(history[i - 1].role),
                history[i - 1].content@,
            ));
        }
    }
}

/// A message that is no tool result may join a transcript in order.
proof fn lemma_push_other(conversation: Seq<MessageView>, message: MessageView)
    requires
        results_follow_calls(conversation),
        !(message.role is Tool),
    ensures
        results_follow_calls(conversation.push(message)),
{
    let longer = conversation.push(message);
    assert forall|i: int| 0 <= i < longer.len() && (#[trigger] longer[i]).role is Tool implies i
        > 0 && awaits_result(longer[i - 1]) by {
        assert(longer[i] == conversation[i]);
        assert(longer[i - 1] == conversation[i - 1]);
    }
}

/// A tool result may join a transcript in order that ends in the message it
/// follows.
proof fn lemma_push_result(conversation: Seq<MessageView>, message: MessageView)
    requires
        results_follow_calls(conversation),
        conversation.len() > 0,
        awaits_result(conversation.last()),
    ensures
        results_follow_calls(conversation.push(message)),
{
    let longer = conversation.push(message);
    assert forall|i: int| 0 <= i < longer.len() && (#[trigger] longer[i]).role is Tool implies i
        > 0 && awaits_result(longer[i - 1]) by {
        if i < conversation.len() {
            assert(longer[i] == conversation[i]);
            assert(longer[i - 1] == conversation[i - 1]);
        } else {
            assert(longer[i - 1] == conversation.last());
        }
    }
}

/// Every step keeps the transcript in order: a tool result is only ever
/// appended behind the assistant message that carries its call, or behind
/// an earlier result of the same batch.
pub proof fn lemma_step_coherent(state: AgentView, event: AgentEventView)
    requires
        coherent(state),
    ensures
        coherent(state.step(event).0),
{
    match (state.phase, event) {
        (Phase::Streaming, AgentEventView::StreamChunk(chunk)) => {
            let cut = split_complete(state.pending + chunk);
            lemma_take_lines_frame(AgentView { pending: cut.1, ..state }, cut.0);
        },
        (Phase::Streaming, AgentEventView::StreamEnd) => {
            let cleared = AgentView { pending: Seq::empty(), ..state };
            lemma_take_line_frame(cleared, state.pending);
            let last = cleared.take_line(state.pending);
            let flushed = last.0.filter.finish();
            lemma_release_frame(AgentView { filter: flushed.0, ..last.0 }, flushed.1);
            let shown = (AgentView { filter: flushed.0, ..last.0 }).release(flushed.1);
            let ended = shown.0.conclude();
            if ended.0.phase is Dispatching {
                let message = ended.0.conversation.last();
                assert(ended.0.conversation == shown.0.conversation.push(message));
                lemma_push_other(shown.0.conversation, message);
            }
        },
        (Phase::Dispatching, AgentEventView::ToolResult(text)) => {
            lemma_push_result(state.conversation, plain(Role::Tool, text));
        },
        (Phase::Dispatching, AgentEventView::ToolDropped) => {
            lemma_push_result(state.conversation, plain(Role::Tool, "Tool Execution Panicked"@));
        },
        _ => {},
    }
}

/// Over any run from a transcript in order, the transcript stays in order.
pub proof fn lemma_run_coherent(state: AgentView, events: Seq<AgentEventView>)
    requires
        coherent(state),
    ensures
        coherent(state.run(events).0),
    decreases events.len(),
{
    if events.len() > 0 {
        lemma_run_coherent(state, events.drop_last());
        lemma_step_coherent(state.run(events.drop_last()).0, events.last());
    }
}

/// The events of tool results that come back one after the other.
pub open spec fn result_events(results: Seq<Seq<char>>) -> Seq<AgentEventView> {
    results.map_values(|r: Seq<char>| AgentEventView::ToolResult(r))
}

/// The messages of tool results.
pub open spec fn result_messages(results: Seq<Seq<char>>) -> Seq<MessageView> {
    results.map_values(|r: Seq<char>| plain(Role::Tool, r))
}

/// The calls of a batch are made one at a time in the order in which the
/// model gave them, and their results join the transcript in that order:
/// while results come back for calls before the last, each is appended and
/// the next call of the batch, and no other, is made.
pub proof fn lemma_batch_in_order(state: AgentView, results: Seq<Seq<char>>)
    requires
        state.phase is Dispatching,
        state.next + results.len() < state.batch.len(),
    ensures
        ({
            let out = state.run(result_events(results));
            &&& out.0.phase is Dispatching
            &&& out.0.batch == state.batch
            &&& out.0.turns == state.turns
            &&& out.0.next == state.next + results.len()
            &&& out.0.conversation == state.conversation + result_messages(results)
            &&& results.len() > 0 ==> out.1.len() > 0 && out.1.last() == AgentActionView::CallTool(
                state.batch[(state.next + results.len()) as int],
            )
            &&& forall|k: int|
                0 <= k < out.1.len() && (#[trigger] out.1[k]) is CallTool ==> exists|j: int|
                    state.next < j <= state.next + results.len() && out.1[k]
                        == AgentActionView::CallTool(state.batch[j])
        }),
    decreases results.len(),
{
    let events = result_events(results);
    if results.len() == 0 {
        assert(state.conversation + result_messages(results) =~= state.conversation);
    } else {
        let earlier = results.drop_last();
        lemma_batch_in_order(state, earlier);
        assert(events.drop_last() =~= result_events(earlier));
        assert(events.last() == AgentEventView::ToolResult(results.last()));
        let before = state.run(result_events(earlier));
        let last = before.0.step(events.last());
        let out = state.run(events);
        assert(out.0.conversation =~= state.conversation + result_messages(results));
        let made = (state.next + results.len()) as int;
        assert(last.1.last() == AgentActionView::CallTool(state.batch[made]));
        assert forall|k: int| 0 <= k < out.1.len() && (#[trigger] out.1[k]) is CallTool implies exists|
            j: int,
        |
            state.next < j <= state.next + results.len() && out.1[k] == AgentActionView::CallTool(
                state.batch[j],
            ) by {
            if k < before.1.len() {
                assert(out.1[k] == before.1[k]);
                let j = choose|j: int|
                    state.next < j <= state.next + earlier.len() && before.1[k]
                        == AgentActionView::CallTool(state.batch[j]);
                assert(state.next < j <= state.next + results.len());
            } else {
                assert(out.1[k] == last.1[k - before.1.len()]);
                assert(out.1[k] == AgentActionView::CallTool(state.batch[made]));
            }
        }
    }
}

/// How many of the actions end the run.
pub open spec fn finishes(actions: Seq<AgentActionView>) -> nat
    decreases actions.len(),
{
    if actions.len() == 0 {
        0
    } else if actions.last() is Finish {
        finishes(actions.drop_last()) + 1
    } else {
        finishes(actions.drop_last())
    }
}

/// The count is additive.
proof fn lemma_finishes_concat(a: Seq<AgentActionView>, b: Seq<AgentActionView>)
    ensures
        finishes(a + b) == finishes(a) + finishes(b),
    decreases b.len(),
{
    if b.len() == 0 {
        assert(a + b =~= a);
    } else {
        lemma_finishes_concat(a, b.drop_last());
        assert((a + b).drop_last() =~= a + b.drop_last());
        assert((a + b).last() == b.last());
    }
}

/// Progress alone ends nothing.
proof fn lemma_finishes_none(actions: Seq<AgentActionView>)
    requires
        forall|k: int| 0 <= k < actions.len() ==> #[trigger] actions[k] is Emit,
    ensures
        finishes(actions) == 0,
    decreases actions.len(),
{
    if actions.len() > 0 {
        assert(actions.last() == actions[actions.len() - 1]);
        assert forall|k: int| 0 <= k < actions.drop_last().len() implies #[trigger] actions.drop_last()[k]
            is Emit by {
            assert(actions.drop_last()[k] == actions[k]);
        }
        lemma_finishes_none(actions.drop_last());
    }
}

/// A few actions counted one by one.
proof fn lemma_finishes_short(actions: Seq<AgentActionView>)
    requires
        actions.len() <= 3,
    ensures
        finishes(actions) == (if actions.len() > 0 && actions[0] is Finish {
            1nat
        } else {
            0
        }) + (if actions.len() > 1 && actions[1] is Finish {
            1nat
        } else {
            0
        }) + (if actions.len() > 2 && actions[2] is Finish {
            1nat
        } else {
            0
        }),
    decreases actions.len(),
{
    if actions.len() > 0 {
        lemma_finishes_short(actions.drop_last());
        let shorter = actions.drop_last();
        if shorter.len() > 0 {
            assert(shorter[0] == actions[0]);
        }
        if shorter.len() > 1 {
            assert(shorter[1] == actions[1]);
        }
    }
}

/// A step ends the run at most once, as its last action, and exactly when
/// it moves the loop into a finished phase; the action names how the run
/// ended. An end by error comes right after the one report of the error.
pub proof fn lemma_step_finishes(state: AgentView, event: AgentEventView)
    requires
        state.wf(),
    ensures
        ({
            let out = state.step(event);
            let ends = !(state.phase is Finished) && out.0.phase is Finished;
            &&& state.phase is Finished ==> out.0.phase == state.phase
            &&& finishes(out.1) == if ends {
                1nat
            } else {
                0
            }
            &&& ends ==> out.1.len() > 0 && out.1.last() == AgentActionView::Finish(
                out.0.phase->Finished_0,
            )
            &&& ends && out.0.phase == Phase::Finished(Terminal::Error) ==> out.1.len() >= 2
                && out.1[out.1.len() - 2] is Emit && out.1[out.1.len() - 2]->Emit_0 is Error
        }),
{
    let out = state.step(event);
    match (state.phase, event) {
        (Phase::Streaming, AgentEventView::StreamChunk(chunk)) => {
            let cut = split_complete(state.pending + chunk);
            lemma_take_lines_frame(AgentView { pending: cut.1, ..state }, cut.0);
            lemma_finishes_none(out.1);
        },
        (Phase::Streaming, AgentEventView::StreamEnd) => {
            let cleared = AgentView { pending: Seq::empty(), ..state };
            lemma_take_line_frame(cleared, state.pending);
            let last = cleared.take_line(state.pending);
            let flushed = last.0.filter.finish();
            lemma_release_frame(AgentView { filter: flushed.0, ..last.0 }, flushed.1);
            let shown = (AgentView { filter: flushed.0, ..last.0 }).release(flushed.1);
            let ended = shown.0.conclude();
            lemma_finishes_none(last.1);
            lemma_finishes_none(shown.1);
            lemma_finishes_concat(last.1, shown.1);
            lemma_finishes_concat(last.1 + shown.1, ended.1);
            lemma_finishes_short(ended.1);
            assert(out.1.last() == ended.1.last());
            if ended.1.len() >= 2 {
                assert(out.1[out.1.len() - 2] == ended.1[ended.1.len() - 2]);
            }
        },
        (Phase::Dispatching, AgentEventView::ToolResult(text)) => {
            lemma_result_finishes(state, text);
        },
        (Phase::Dispatching, AgentEventView::ToolDropped) => {
            lemma_result_finishes(state, "Tool Execution Panicked"@);
        },
        _ => {
            lemma_finishes_short(out.1);
        },
    }
}

/// The return of a call ends the run only at the cap.
proof fn lemma_result_finishes(state: AgentView, text: Seq<char>)
    requires
        state.phase is Dispatching,
    ensures
        ({
            let out = state.on_result(text);
            &&& finishes(out.1) == if out.0.phase is Finished {
                1nat
            } else {
                0
            }
            &&& out.0.phase is Finished ==> out.1.len() > 0 && out.1.last()
                == AgentActionView::Finish(out.0.phase->Finished_0)
            &&& !(out.0.phase == Phase::Finished(Terminal::Error))
        }),
{
    let out = state.on_result(text);
    lemma_finishes_short(out.1);
}

/// Over any run the loop ends at most once, and the run has ended exactly
/// when an action said so: no run stops in silence, and none ends twice.
pub proof fn lemma_run_ends_once(state: AgentView, events: Seq<AgentEventView>)
    requires
        state.wf(),
        !(state.phase is Finished),
    ensures
        finishes(state.run(events).1) == if state.run(events).0.phase is Finished {
            1nat
        } else {
            0
        },
    decreases events.len(),
{
    if events.len() > 0 {
        lemma_run_ends_once(state, events.drop_last());
        lemma_run_within_cap(state, events.drop_last());
        let before = state.run(events.drop_last());
        lemma_step_finishes(before.0, events.last());
        lemma_finishes_concat(before.1, before.0.step(events.last()).1);
    }
}

} // verus!
