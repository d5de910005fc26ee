//! The agent loop as a state machine. Each turn drafts a request, consumes
//! the streamed response, finds the action in it, and dispatches the tool
//! calls one at a time; the results go back into the transcript and the next
//! turn begins. The driver performs the requests and calls: it hands every
//! event to `step` and carries out the actions that come back.

use vstd::prelude::*;
use crate::chat::{AppEvent, AppEventView, ChatMessage};
use crate::executor::{ToolCall, ToolCallView};
use crate::extract::extract;
use crate::json::{Json, JsonView};
use crate::number::decimal;
use crate::protocol::{plain, request_body, tool_json, transcript, MessageView, Role};
use crate::response::{action_call, read_line, split_complete, StreamLineView};
use crate::stream::{FilterState, Piece};
use crate::text::trim;
use crate::tools::{definitions_view, ToolDefinition, ToolDefinitionView};

verus! {

/// How a run ended.
#[derive(Clone, Copy, Debug, PartialEq, Eq, Structural)]
pub enum Terminal {
    /// A turn yielded no action: the answer is complete.
    Done,
    /// A fatal condition was reported.
    Error,
    /// The cap on turns was reached.
    CapReached,
}

/// Where the loop stands.
#[derive(Clone, Copy, Debug, PartialEq, Eq, Structural)]
pub enum Phase {
    /// Not started.
    Created,
    /// Waiting for the list of tools.
    AwaitTools,
    /// A request is out; waiting for the status of the response.
    AwaitResponse,
    /// Consuming the response stream.
    Streaming,
    /// A tool call is in flight.
    Dispatching,
    /// Over.
    Finished(Terminal),
}

/// Most turns of one run, unless the settings say otherwise.
pub const MAX_LOOPS: usize = 10;

/// The system prompt, unless the settings say otherwise.
pub const AGENT_SYSTEM_PROMPT: &'static str = "\nYou are Agerus, an expert software development agent running in a secure Docker sandbox.\n\n# CRITICAL OPERATIONAL RULES:\n1. **CONTEXT IS KING**: \n   - You have NO magic knowledge of the user's files.\n   - ALWAYS run `list_files` to explore the directory structure first.\n   - ALWAYS run `read_file` to see file content before editing.\n   - ALWAYS run `consult_documentation` to see the documentation for the language.\n\n2. **SANDBOXED ENVIRONMENT**:\n   - You are running inside a Docker container.\n   - You can safely run destructive commands (rm, etc) if necessary.\n   - You cannot open GUI applications.\n\n3. **THINK BEFORE ACTING**:\n   - Before calling a tool, briefly explain your plan.\n   - If a tool fails, analyze the error and try a different approach.\n\n4. **FORMATTING**:\n   - When writing code, return the full file content if the file is small.\n   - For large files, ensure you have read them first to avoid overwriting content blindly.\n";

/// Settings of a run.
#[derive(Clone, Debug, PartialEq, Eq)]
pub struct AgentConfig {
    /// Model named in every request.
    pub model: String,
    /// First message of the transcript.
    pub system_prompt: String,
    /// Most turns of one run.
    pub max_turns: usize,
    /// Whether content is scanned for reasoning tags; off for services that
    /// deliver reasoning in a field of its own only.
    pub scan_tags: bool,
}

impl AgentConfig {
    /// The usual settings for the model `model`: the usual prompt and cap,
    /// with content scanned for reasoning tags.
    pub fn for_model(model: String) -> (config: AgentConfig)
        ensures
            config.model@ == model@,
            config.system_prompt@ == AGENT_SYSTEM_PROMPT@,
            config.max_turns == MAX_LOOPS,
            config.scan_tags,
    {
        AgentConfig {
            model,
            system_prompt: AGENT_SYSTEM_PROMPT.to_owned(),
            max_turns: MAX_LOOPS,
            scan_tags: true,
        }
    }
}

/// What the driver reports to the loop.
#[derive(Clone, Debug, PartialEq, Eq)]
pub enum AgentEvent {
    /// Begin.
    Start,
    /// The tool server listed its tools.
    ToolsListed(Vec<ToolDefinition>),
    /// The tool server could not be reached.
    ToolsUnavailable(String),
    /// The service accepted the request; the stream follows.
    ResponseOk,
    /// The service refused the request as malformed, which is how it
    /// answers a model that cannot take tools; with the body of the answer.
    ResponseRejected(String),
    /// The service answered with another failure; with the body.
    ResponseFailed(String),
    /// The service could not be reached.
    TransportFailed(String),
    /// The next piece of the response stream.
    StreamChunk(String),
    /// The stream broke.
    StreamFailed(String),
    /// The stream ended.
    StreamEnd,
    /// The tool call in flight came back with this text.
    ToolResult(String),
    /// The tool server dropped the call in flight.
    ToolDropped,
    /// The tool server could not be reached for the call.
    ToolUnreachable(String),
}

/// What the driver must do.
#[derive(Clone, Debug, PartialEq, Eq)]
pub enum AgentAction {
    /// Ask the tool server for its tools.
    ListTools,
    /// Send this body as a streaming request.
    SendRequest(Json),
    /// Report progress.
    Emit(AppEvent),
    /// Call a tool.
    CallTool(ToolCall),
    /// Stop: the run is over.
    Finish(Terminal),
}

pub enum AgentEventView {
    Start,
    ToolsListed(Seq<ToolDefinitionView>),
    ToolsUnavailable(Seq<char>),
    ResponseOk,
    ResponseRejected(Seq<char>),
    ResponseFailed(Seq<char>),
    TransportFailed(Seq<char>),
    StreamChunk(Seq<char>),
    StreamFailed(Seq<char>),
    StreamEnd,
    ToolResult(Seq<char>),
    ToolDropped,
    ToolUnreachable(Seq<char>),
}

pub enum AgentActionView {
    ListTools,
    SendRequest(JsonView),
    Emit(AppEventView),
    CallTool(ToolCallView),
    Finish(Terminal),
}

impl View for AgentEvent {
    type V = AgentEventView;

    open spec fn view(&self) -> AgentEventView {
        match self {
            AgentEvent::Start => AgentEventView::Start,
            AgentEvent::ToolsListed(t) => AgentEventView::ToolsListed(definitions_view(t@)),
            AgentEvent::ToolsUnavailable(m) => AgentEventView::ToolsUnavailable(m@),
            AgentEvent::ResponseOk => AgentEventView::ResponseOk,
            AgentEvent::ResponseRejected(b) => AgentEventView::ResponseRejected(b@),
            AgentEvent::ResponseFailed(b) => AgentEventView::ResponseFailed(b@),
            AgentEvent::TransportFailed(m) => AgentEventView::TransportFailed(m@),
            AgentEvent::StreamChunk(c) => AgentEventView::StreamChunk(c@),
            AgentEvent::StreamFailed(m) => AgentEventView::StreamFailed(m@),
            AgentEvent::StreamEnd => AgentEventView::StreamEnd,
            AgentEvent::ToolResult(t) => AgentEventView::ToolResult(t@),
            AgentEvent::ToolDropped => AgentEventView::ToolDropped,
            AgentEvent::ToolUnreachable(m) => AgentEventView::ToolUnreachable(m@),
        }
    }
}

impl View for AgentAction {
    type V = AgentActionView;

    open spec fn view(&self) -> AgentActionView {
        match self {
            AgentAction::ListTools => AgentActionView::ListTools,
            AgentAction::SendRequest(b) => AgentActionView::SendRequest(b@),
            AgentAction::Emit(e) => AgentActionView::Emit(e@),
            AgentAction::CallTool(c) => AgentActionView::CallTool(c@),
            AgentAction::Finish(t) => AgentActionView::Finish(*t),
        }
    }
}

/// The views of a list of actions.
pub open spec fn acts(actions: Seq<AgentAction>) -> Seq<AgentActionView> {
    actions.map_values(|a: AgentAction| a@)
}

/// The views of a list of events.
pub open spec fn agent_events(events: Seq<AgentEvent>) -> Seq<AgentEventView> {
    events.map_values(|e: AgentEvent| e@)
}

/// The notice shown when a model turns out not to take tools.
pub open spec fn fallback_notice(model: Seq<char>) -> Seq<char> {
    "Model '"@ + model + "' rejected tools. Falling back to text-only mode."@
}

/// The message of the error that reports the cap on turns.
pub open spec fn cap_notice(max_turns: nat) -> Seq<char> {
    "Stopped after "@ + decimal(max_turns) + " turns: the cap on turns was reached."@
}

/// How a tool call is announced.
pub open spec fn call_label(name: Seq<char>) -> Seq<char> {
    name + "(...)"@
}

/// The filter that a turn starts with.
pub open spec fn fresh_filter(scan_tags: bool) -> FilterState {
    FilterState { scanning: scan_tags, in_span: false, pending: Seq::empty() }
}

/// Abstract state of the loop.
pub struct AgentView {
    pub model: Seq<char>,
    pub max_turns: nat,
    pub scan_tags: bool,
    pub phase: Phase,
    /// Turns begun so far.
    pub turns: nat,
    /// Whether requests go out without tool schemas.
    pub tools_disabled: bool,
    /// The tool schemas in wire shape.
    pub tools: Seq<JsonView>,
    /// The transcript.
    pub conversation: Seq<MessageView>,
    /// The calls of this turn: gathered while streaming, dispatched after.
    pub batch: Seq<ToolCallView>,
    /// Index of the call in flight.
    pub next: nat,
    /// The unfinished last line of the stream.
    pub pending: Seq<char>,
    /// The answer text of this turn so far.
    pub answer: Seq<char>,
    /// The state of the reasoning filter.
    pub filter: FilterState,
}

impl AgentView {
    /// The loop never begins more turns than the cap allows, and its filter
    /// is well-formed.
    pub open spec fn wf(self) -> bool {
        self.turns <= self.max_turns && self.filter.wf()
    }

    /// The run ends with an error that is reported once.
    pub open spec fn fail(self, message: Seq<char>) -> (AgentView, Seq<AgentActionView>) {
        (
            AgentView { phase: Phase::Finished(Terminal::Error), ..self },
            seq![
                AgentActionView::Emit(AppEventView::Error(message)),
                AgentActionView::Finish(Terminal::Error),
            ],
        )
    }

    /// The request for the transcript as it stands: with the tool schemas
    /// unless tools are disabled.
    pub open spec fn request(self) -> AgentActionView {
        AgentActionView::SendRequest(
            request_body(
                self.model,
                self.conversation,
                if self.tools_disabled {
                    None
                } else {
                    Some(self.tools)
                },
            ),
        )
    }

    /// A new turn begins with its request, unless the cap is reached: then
    /// the run ends, and says so.
    pub open spec fn begin_turn(self) -> (AgentView, Seq<AgentActionView>) {
        if self.turns >= self.max_turns {
            (
                AgentView { phase: Phase::Finished(Terminal::CapReached), ..self },
                seq![
                    AgentActionView::Emit(AppEventView::Error(cap_notice(self.max_turns))),
                    AgentActionView::Finish(Terminal::CapReached),
                ],
            )
        } else {
            let next = AgentView {
                phase: Phase::AwaitResponse,
                turns: self.turns + 1,
                batch: Seq::empty(),
                next: 0,
                pending: Seq::empty(),
                answer: Seq::empty(),
                filter: fresh_filter(self.scan_tags),
                ..self
            };
            (next, seq![next.request()])
        }
    }

    /// The service refused the request as malformed. With tools enabled
    /// this means that the model takes none: tools are disabled for the rest
    /// of the run, a notice is shown, and the turn's request is sent again
    /// without them. With tools disabled already it is a failure.
    pub open spec fn on_rejected(self, body: Seq<char>) -> (AgentView, Seq<AgentActionView>) {
        if self.tools_disabled {
            self.fail("Ollama API Error: "@ + body)
        } else {
            let next = AgentView { tools_disabled: true, ..self };
            (
                next,
                seq![
                    AgentActionView::Emit(AppEventView::Thinking(fallback_notice(self.model))),
                    next.request(),
                ],
            )
        }
    }

    /// Pieces released by the filter: reasoning is shown as such, answer
    /// text is shown and added to the turn's answer.
    pub open spec fn release(self, released: Seq<Piece>) -> (AgentView, Seq<AgentActionView>)
        decreases released.len(),
    {
        if released.len() == 0 {
            (self, Seq::empty())
        } else {
            let before = self.release(released.drop_last());
            let piece = released.last();
            if piece.0 {
                (before.0, before.1.push(AgentActionView::Emit(AppEventView::Thinking(piece.1))))
            } else {
                (
                    AgentView { answer: before.0.answer + piece.1, ..before.0 },
                    before.1.push(AgentActionView::Emit(AppEventView::Token(piece.1))),
                )
            }
        }
    }

    /// One well-formed line of the stream: an error it reports is shown,
    /// reasoning from a field of its own is shown, content goes through the
    /// filter, and calls join the turn's batch.
    pub open spec fn absorb(self, line: StreamLineView) -> (AgentView, Seq<AgentActionView>) {
        let reported = match line.error {
            Some(e) => seq![AgentActionView::Emit(AppEventView::Error("Ollama Error: "@ + e))],
            None => Seq::empty(),
        };
        let thought = match line.reasoning {
            Some(r) => seq![AgentActionView::Emit(AppEventView::Thinking(r))],
            None => Seq::empty(),
        };
        let pushed = match line.content {
            Some(c) => self.filter.push(c),
            None => (self.filter, Seq::empty()),
        };
        let shown = (AgentView { filter: pushed.0, ..self }).release(pushed.1);
        (AgentView { batch: shown.0.batch + line.calls, ..shown.0 }, reported + thought + shown.1)
    }

    /// One line of the stream. A blank line, and a line that does not
    /// parse, are passed over.
    pub open spec fn take_line(self, line: Seq<char>) -> (AgentView, Seq<AgentActionView>) {
        if trim(line).len() == 0 {
            (self, Seq::empty())
        } else {
            match crate::json::parsed(line) {
                Some(value) => self.absorb(read_line(value)),
                None => (self, Seq::empty()),
            }
        }
    }

    /// Several lines of the stream, in order.
    pub open spec fn take_lines(self, lines: Seq<Seq<char>>) -> (AgentView, Seq<AgentActionView>)
        decreases lines.len(),
    {
        if lines.len() == 0 {
            (self, Seq::empty())
        } else {
            let before = self.take_lines(lines.drop_last());
            let last = before.0.take_line(lines.last());
            (last.0, before.1 + last.1)
        }
    }

    /// A piece of the stream: its complete lines are taken; the rest waits.
    pub open spec fn on_chunk(self, chunk: Seq<char>) -> (AgentView, Seq<AgentActionView>) {
        let cut = split_complete(self.pending + chunk);
        (AgentView { pending: cut.1, ..self }).take_lines(cut.0)
    }

    /// The turn's calls are dispatched: the assistant's message with its
    /// calls joins the transcript, and the first call is announced and made.
    pub open spec fn dispatch(self) -> (AgentView, Seq<AgentActionView>) {
        (
            AgentView {
                phase: Phase::Dispatching,
                next: 0,
                conversation: self.conversation.push(
                    MessageView {
                        role: Role::Assistant,
                        content: self.answer,
                        tool_calls: self.batch,
                    },
                ),
                ..self
            },
            seq![
                AgentActionView::Emit(AppEventView::CommandStart(call_label(self.batch[0].name))),
                AgentActionView::CallTool(self.batch[0]),
            ],
        )
    }

    /// What the turn comes to once its stream is consumed. Structured calls
    /// are dispatched as they are. Without any, an empty answer is a failure
    /// of the service; else the answer is searched for an action, which is
    /// dispatched; and where it holds none, the run is done.
    pub open spec fn conclude(self) -> (AgentView, Seq<AgentActionView>) {
        if self.batch.len() > 0 {
            self.dispatch()
        } else if self.answer.len() == 0 {
            self.fail("Empty response from model"@)
        } else {
            match extract(self.answer) {
                Some(action) => match action_call(action) {
                    Some(call) => (AgentView { batch: seq![call], ..self }).dispatch(),
                    None => (
                        AgentView { phase: Phase::Finished(Terminal::Done), ..self },
                        seq![AgentActionView::Finish(Terminal::Done)],
                    ),
                },
                None => (
                    AgentView { phase: Phase::Finished(Terminal::Done), ..self },
                    seq![AgentActionView::Finish(Terminal::Done)],
                ),
            }
        }
    }

    /// The stream ended: the unfinished last line is taken as a line, the
    /// filter releases what it held back, and the turn is concluded.
    pub open spec fn on_stream_end(self) -> (AgentView, Seq<AgentActionView>) {
        let last = (AgentView { pending: Seq::empty(), ..self }).take_line(self.pending);
        let flushed = last.0.filter.finish();
        let shown = (AgentView { filter: flushed.0, ..last.0 }).release(flushed.1);
        let ended = shown.0.conclude();
        (ended.0, last.1 + shown.1 + ended.1)
    }

    /// The call in flight came back: its result is shown and joins the
    /// transcript as an observation; then the next call of the batch is made,
    /// or, after the last, the next turn begins.
    pub open spec fn on_result(self, text: Seq<char>) -> (AgentView, Seq<AgentActionView>) {
        let noted = AgentView {
            conversation: self.conversation.push(plain(Role::Tool, text)),
            ..self
        };
        let shown = seq![AgentActionView::Emit(AppEventView::CommandEnd(text))];
        if self.next + 1 < self.batch.len() {
            (
                AgentView { next: self.next + 1, ..noted },
                shown + seq![
                    AgentActionView::Emit(
                        AppEventView::CommandStart(call_label(self.batch[self.next as int + 1].name)),
                    ),
                    AgentActionView::CallTool(self.batch[self.next as int + 1]),
                ],
            )
        } else {
            let begun = noted.begin_turn();
            (begun.0, shown + begun.1)
        }
    }

    /// The transition function: next state and actions for one event. An
    /// event that the phase does not expect changes nothing.
    pub open spec fn step(self, event: AgentEventView) -> (AgentView, Seq<AgentActionView>) {
        match (self.phase, event) {
            (Phase::Created, AgentEventView::Start) => (
                AgentView { phase: Phase::AwaitTools, ..self },
                seq![AgentActionView::ListTools],
            ),
            (Phase::AwaitTools, AgentEventView::ToolsListed(tools)) => (AgentView {
                tools: tools.map_values(|t: ToolDefinitionView| tool_json(t)),
                ..self
            }).begin_turn(),
            (Phase::AwaitTools, AgentEventView::ToolsUnavailable(m)) => self.fail(
                "Failed to contact MCP: "@ + m,
            ),
            (Phase::AwaitResponse, AgentEventView::ResponseOk) => (
                AgentView { phase: Phase::Streaming, ..self },
                Seq::empty(),
            ),
            (Phase::AwaitResponse, AgentEventView::ResponseRejected(body)) => self.on_rejected(
                body,
            ),
            (Phase::AwaitResponse, AgentEventView::ResponseFailed(body)) => self.fail(
                "Ollama API Error: "@ + body,
            ),
            (Phase::AwaitResponse, AgentEventView::TransportFailed(m)) => self.fail(
                "Ollama Connection Error: "@ + m,
            ),
            (Phase::Streaming, AgentEventView::StreamChunk(chunk)) => self.on_chunk(chunk),
            (Phase::Streaming, AgentEventView::StreamFailed(m)) => self.fail(
                "Stream Error: "@ + m,
            ),
            (Phase::Streaming, AgentEventView::StreamEnd) => self.on_stream_end(),
            (Phase::Dispatching, AgentEventView::ToolResult(text)) => self.on_result(text),
            (Phase::Dispatching, AgentEventView::ToolDropped) => self.on_result(
                "Tool Execution Panicked"@,
            ),
            (Phase::Dispatching, AgentEventView::ToolUnreachable(m)) => self.fail(
                "Failed to call tool: "@ + m,
            ),
            _ => (self, Seq::empty()),
        }
    }

    /// State after a list of events, and all the actions on the way.
    pub open spec fn run(self, events: Seq<AgentEventView>) -> (AgentView, Seq<AgentActionView>)
        decreases events.len(),
    {
        if events.len() == 0 {
            (self, Seq::empty())
        } else {
            let before = self.run(events.drop_last());
            let last = before.0.step(events.last());
            (last.0, before.1 + last.1)
        }
    }
}

/// The state that a run starts in.
pub open spec fn initial(
    model: Seq<char>,
    prompt: Seq<char>,
    max_turns: nat,
    scan_tags: bool,
    history: Seq<ChatMessage>,
) -> AgentView {
    AgentView {
        model,
        max_turns,
        scan_tags,
        phase: Phase::Created,
        turns: 0,
        tools_disabled: false,
        tools: Seq::empty(),
        conversation: transcript(prompt, history),
        batch: Seq::empty(),
        next: 0,
        pending: Seq::empty(),
        answer: Seq::empty(),
        filter: fresh_filter(scan_tags),
    }
}

} // verus!
