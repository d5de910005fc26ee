//! The agent loop's executable state: it takes the driver's events one by
//! one and answers each with the actions that the transition function of
//! `agent` prescribes.

use vstd::prelude::*;
use vstd::string::*;
use crate::agent::{
    acts, agent_events, call_label, fresh_filter, initial, AgentAction, AgentActionView,
    AgentConfig, AgentEvent, AgentView, Phase, Terminal,
};
use crate::chat::{AppEvent, AppEventView, ChatMessage};
use crate::executor::ToolCall;
use crate::extract::extract_action;
use crate::json::{values_view, Json};
use crate::lines::texts;
use crate::number::decimal_text;
use crate::protocol::{
    build_request, build_transcript, calls_view, copy_calls, messages_view, plain, tool_json,
    tool_to_json, Message, Role,
};
use crate::response::{read_action, read_stream_line, take_complete_lines, StreamLine};
use crate::stream::{pieces, StreamFilter};
use crate::text::{append_chars, from_chars, is_blank, to_chars};
use crate::tools::{definitions_view, ToolDefinition, ToolDefinitionView};

verus! {

/// The agent loop of one run.
pub struct AgentLoop {
    model: String,
    max_turns: usize,
    scan_tags: bool,
    phase: Phase,
    turns: usize,
    tools_disabled: bool,
    tools: Vec<Json>,
    conversation: Vec<Message>,
    batch: Vec<ToolCall>,
    next: usize,
    pending: Vec<char>,
    answer: String,
    filter: StreamFilter,
}

impl View for AgentLoop {
    type V = AgentView;

    closed spec fn view(&self) -> AgentView {
        AgentView {
            model: self.model@,
            max_turns: self.max_turns as nat,
            scan_tags: self.scan_tags,
            phase: self.phase,
            turns: self.turns as nat,
            tools_disabled: self.tools_disabled,
            tools: values_view(self.tools@),
            conversation: messages_view(self.conversation@),
            batch: calls_view(self.batch@),
            next: self.next as nat,
            pending: self.pending@,
            answer: self.answer@,
            filter: self.filter@,
        }
    }
}

/// Appends one action.
fn push_act(actions: &mut Vec<AgentAction>, action: AgentAction)
    ensures
        acts(final(actions)@) == acts(old(actions)@).push(action@),
{
    let ghost added = action@;
    actions.push(action);
    assert(acts(actions@) =~= acts(old(actions)@).push(added));
}

/// The filter that a turn starts with.
fn new_filter(scan_tags: bool) -> (filter: StreamFilter)
    ensures
        filter@ == fresh_filter(scan_tags),
{
    if scan_tags {
        StreamFilter::new()
    } else {
        StreamFilter::passthrough()
    }
}

/// `head` followed by `tail`.
fn labelled(head: &str, tail: &str) -> (text: String)
    ensures
        text@ == head@ + tail@,
{
    let mut text = String::from_str(head);
    text.append(tail);
    text
}

impl AgentLoop {
    /// A loop for one run over the conversation `history`, not yet started.
    pub fn new(config: AgentConfig, history: &Vec<ChatMessage>) -> (agent: AgentLoop)
        ensures
            agent@ == initial(
                config.model@,
                config.system_prompt@,
                config.max_turns as nat,
                config.scan_tags,
                history@,
            ),
            agent@.wf(),
    {
        let conversation = build_transcript(config.system_prompt.as_str(), history);
        let tools: Vec<Json> = Vec::new();
        let batch: Vec<ToolCall> = Vec::new();
        assert(values_view(tools@) =~= Seq::empty());
        assert(calls_view(batch@) =~= Seq::empty());
        let filter = new_filter(config.scan_tags);
        proof {
            crate::stream::lemma_delimiter_len(false);
        }
        AgentLoop {
            model: config.model,
            max_turns: config.max_turns,
            scan_tags: config.scan_tags,
            phase: Phase::Created,
            turns: 0,
            tools_disabled: false,
            tools,
            conversation,
            batch,
            next: 0,
            pending: Vec::new(),
            answer: String::new(),
            filter,
        }
    }

    /// Where the loop stands.
    pub fn phase(&self) -> (phase: Phase)
        ensures
            phase == self@.phase,
    {
        self.phase
    }

    /// Turns begun so far.
    pub fn turns(&self) -> (turns: usize)
        ensures
            turns == self@.turns,
    {
        self.turns
    }

    /// Whether requests go out without tool schemas.
    pub fn tools_disabled(&self) -> (disabled: bool)
        ensures
            disabled == self@.tools_disabled,
    {
        self.tools_disabled
    }

    /// The transcript.
    pub fn conversation(&self) -> (messages: &Vec<Message>)
        ensures
            messages_view(messages@) == self@.conversation,
    {
        &self.conversation
    }

    /// The calls of this turn.
    pub fn batch(&self) -> (calls: &Vec<ToolCall>)
        ensures
            calls_view(calls@) == self@.batch,
    {
        &self.batch
    }

    /// Ends the run with an error.
    fn fail(&mut self, message: String, actions: &mut Vec<AgentAction>)
        ensures
            final(self)@ == old(self)@.fail(message@).0,
            acts(final(actions)@) == acts(old(actions)@) + old(self)@.fail(message@).1,
    {
        self.phase = Phase::Finished(Terminal::Error);
        push_act(actions, AgentAction::Emit(AppEvent::Error(message)));
        push_act(actions, AgentAction::Finish(Terminal::Error));
        assert(acts(actions@) =~= acts(old(actions)@) + old(self)@.fail(message@).1);
    }

    /// Appends the request for the transcript as it stands.
    fn push_request(&self, actions: &mut Vec<AgentAction>)
        ensures
            acts(final(actions)@) == acts(old(actions)@).push(self@.request()),
    {
        let body = if self.tools_disabled {
            build_request(self.model.as_str(), &self.conversation, None)
        } else {
            build_request(self.model.as_str(), &self.conversation, Some(&self.tools))
        };
        push_act(actions, AgentAction::SendRequest(body));
    }

    /// Begins a new turn, or ends the run at the cap.
    fn begin_turn(&mut self, actions: &mut Vec<AgentAction>)
        ensures
            final(self)@ == old(self)@.begin_turn().0,
            acts(final(actions)@) == acts(old(actions)@) + old(self)@.begin_turn().1,
    {
        if self.turns >= self.max_turns {
            self.phase = Phase::Finished(Terminal::CapReached);
            let mut notice = String::from_str("Stopped after ");
            notice.append(decimal_text(self.max_turns).as_str());
            notice.append(" turns: the cap on turns was reached.");
            push_act(actions, AgentAction::Emit(AppEvent::Error(notice)));
            push_act(actions, AgentAction::Finish(Terminal::CapReached));
            assert(acts(actions@) =~= acts(old(actions)@) + old(self)@.begin_turn().1);
        } else {
            self.phase = Phase::AwaitResponse;
            self.turns = self.turns + 1;
            self.batch = Vec::new();
            self.next = 0;
            self.pending = Vec::new();
            self.answer = String::new();
            self.filter = new_filter(self.scan_tags);
            assert(calls_view(self.batch@) =~= Seq::empty());
            self.push_request(actions);
            assert(acts(actions@) =~= acts(old(actions)@) + old(self)@.begin_turn().1);
        }
    }

    /// Handles the refusal of a request as malformed.
    fn on_rejected(&mut self, body: String, actions: &mut Vec<AgentAction>)
        ensures
            final(self)@ == old(self)@.on_rejected(body@).0,
            acts(final(actions)@) == acts(old(actions)@) + old(self)@.on_rejected(body@).1,
    {
        if self.tools_disabled {
            self.fail(labelled("Ollama API Error: ", body.as_str()), actions);
        } else {
            self.tools_disabled = true;
            let mut notice = String::from_str("Model '");
            notice.append(self.model.as_str());
            notice.append("' rejected tools. Falling back to text-only mode.");
            push_act(actions, AgentAction::Emit(AppEvent::Thinking(notice)));
            self.push_request(actions);
            assert(acts(actions@) =~= acts(old(actions)@) + old(self)@.on_rejected(body@).1);
        }
    }

    /// Shows the pieces that the filter released.
    fn release(&mut self, released: Vec<(bool, String)>, actions: &mut Vec<AgentAction>)
        ensures
            final(self)@ == old(self)@.release(pieces(released@)).0,
            acts(final(actions)@) == acts(old(actions)@) + old(self)@.release(
                pieces(released@),
            ).1,
    {
        let ghost all = pieces(released@);
        let ghost start = self@;
        let mut i: usize = 0;
        assert(all.take(0) =~= Seq::empty());
        assert(acts(actions@) =~= acts(old(actions)@) + start.release(all.take(0)).1);
        while i < released.len()
            invariant
                i <= released.len(),
                all == pieces(released@),
                self@ == start.release(all.take(i as int)).0,
                acts(actions@) == acts(old(actions)@) + start.release(all.take(i as int)).1,
            decreases released.len() - i,
        {
            let ghost shown = acts(actions@);
            proof {
                let now = all.take(i + 1);
                assert(now.drop_last() =~= all.take(i as int));
                assert(now.last() == (released[i as int].0, released[i as int].1@));
            }
            let text = released[i].1.clone();
            if released[i].0 {
                push_act(actions, AgentAction::Emit(AppEvent::Thinking(text)));
            } else {
                self.answer.append(text.as_str());
                push_act(actions, AgentAction::Emit(AppEvent::Token(text)));
            }
            i += 1;
            assert(acts(actions@) =~= acts(old(actions)@) + start.release(all.take(i as int)).1);
        }
        assert(all.take(released.len() as int) =~= all);
    }

    /// Takes in one well-formed line of the stream.
    fn absorb(&mut self, line: StreamLine, actions: &mut Vec<AgentAction>)
        ensures
            final(self)@ == old(self)@.absorb(line@).0,
            acts(final(actions)@) == acts(old(actions)@) + old(self)@.absorb(line@).1,
    {
        let ghost wanted = old(self)@.absorb(line@);
        let StreamLine { error, reasoning, content, calls } = line;
        match error {
            Some(e) => {
                push_act(
                    actions,
                    AgentAction::Emit(AppEvent::Error(labelled("Ollama Error: ", e.as_str()))),
                );
            },
            None => {},
        }
        match reasoning {
            Some(r) => {
                push_act(actions, AgentAction::Emit(AppEvent::Thinking(r)));
            },
            None => {},
        }
        let ghost shown = acts(actions@);
        let released = match content {
            Some(c) => self.filter.push(c.as_str()),
            None => {
                let none: Vec<(bool, String)> = Vec::new();
                assert(pieces(none@) =~= Seq::empty());
                none
            },
        };
        self.release(released, actions);
        let ghost gathered = calls_view(self.batch@);
        let mut calls = calls;
        let ghost fresh = calls_view(calls@);
        self.batch.append(&mut calls);
        assert(calls_view(self.batch@) =~= gathered + fresh);
        assert(acts(actions@) =~= acts(old(actions)@) + wanted.1);
    }

    /// Takes in one line of the stream.
    fn take_line(&mut self, line: &str, actions: &mut Vec<AgentAction>)
        ensures
            final(self)@ == old(self)@.take_line(line@).0,
            acts(final(actions)@) == acts(old(actions)@) + old(self)@.take_line(line@).1,
    {
        if is_blank(line) {
            assert(acts(actions@) =~= acts(old(actions)@) + Seq::<AgentActionView>::empty());
        } else {
            match Json::parse(line) {
                Some(value) => {
                    let read = read_stream_line(&value);
                    self.absorb(read, actions);
                },
                None => {
                    assert(acts(actions@) =~= acts(old(actions)@)
                        + Seq::<AgentActionView>::empty());
                },
            }
        }
    }

    /// Takes in one piece of the stream.
    fn on_chunk(&mut self, chunk: String, actions: &mut Vec<AgentAction>)
        ensures
            final(self)@ == old(self)@.on_chunk(chunk@).0,
            acts(final(actions)@) == acts(old(actions)@) + old(self)@.on_chunk(chunk@).1,
    {
        let fresh = to_chars(chunk.as_str());
        append_chars(&mut self.pending, &fresh);
        let lines = take_complete_lines(&mut self.pending);
        let ghost all = texts(lines@);
        let ghost start = self@;
        let mut i: usize = 0;
        assert(all.take(0) =~= Seq::empty());
        assert(acts(actions@) =~= acts(old(actions)@) + start.take_lines(all.take(0)).1);
        while i < lines.len()
            invariant
                i <= lines.len(),
                all == texts(lines@),
                self@ == start.take_lines(all.take(i as int)).0,
                acts(actions@) == acts(old(actions)@) + start.take_lines(all.take(i as int)).1,
            decreases lines.len() - i,
        {
            proof {
                let now = all.take(i + 1);
                assert(now.drop_last() =~= all.take(i as int));
                assert(now.last() == lines[i as int]@);
            }
            self.take_line(lines[i].as_str(), actions);
            i += 1;
            assert(acts(actions@) =~= acts(old(actions)@) + start.take_lines(
                all.take(i as int),
            ).1);
        }
        assert(all.take(lines.len() as int) =~= all);
    }

    /// Announces and makes the call at `index` of the batch.
    fn push_call(&self, index: usize, actions: &mut Vec<AgentAction>)
        requires
            index < self.batch.len(),
        ensures
            acts(final(actions)@) == acts(old(actions)@) + seq![
                AgentActionView::Emit(
                    AppEventView::CommandStart(call_label(self@.batch[index as int].name)),
                ),
                AgentActionView::CallTool(self@.batch[index as int]),
            ],
    {
        let call = self.batch[index].copy();
        assert(call@ == self@.batch[index as int]);
        let label = labelled(call.name.as_str(), "(...)");
        push_act(actions, AgentAction::Emit(AppEvent::CommandStart(label)));
        push_act(actions, AgentAction::CallTool(call));
        assert(acts(actions@) =~= acts(old(actions)@) + seq![
            AgentActionView::Emit(
                AppEventView::CommandStart(call_label(self@.batch[index as int].name)),
            ),
            AgentActionView::CallTool(self@.batch[index as int]),
        ]);
    }

    /// Dispatches the turn's calls.
    fn dispatch(&mut self, actions: &mut Vec<AgentAction>)
        requires
            old(self).batch.len() > 0,
        ensures
            final(self)@ == old(self)@.dispatch().0,
            acts(final(actions)@) == acts(old(actions)@) + old(self)@.dispatch().1,
    {
        let ghost before = messages_view(self.conversation@);
        let message = Message {
            role: Role::Assistant,
            content: self.answer.clone(),
            tool_calls: copy_calls(&self.batch),
        };
        let ghost added = message@;
        self.conversation.push(message);
        assert(messages_view(self.conversation@) =~= before.push(added));
        self.phase = Phase::Dispatching;
        self.next = 0;
        self.push_call(0, actions);
    }

    /// Ends the run: the answer is complete.
    fn finish_done(&mut self, actions: &mut Vec<AgentAction>)
        ensures
            final(self)@ == (AgentView { phase: Phase::Finished(Terminal::Done), ..old(self)@ }),
            acts(final(actions)@) == acts(old(actions)@) + seq![
                AgentActionView::Finish(Terminal::Done),
            ],
    {
        self.phase = Phase::Finished(Terminal::Done);
        push_act(actions, AgentAction::Finish(Terminal::Done));
        assert(acts(actions@) =~= acts(old(actions)@) + seq![
            AgentActionView::Finish(Terminal::Done),
        ]);
    }

    /// Concludes the turn once its stream is consumed.
    fn conclude(&mut self, actions: &mut Vec<AgentAction>)
        ensures
            final(self)@ == old(self)@.conclude().0,
            acts(final(actions)@) == acts(old(actions)@) + old(self)@.conclude().1,
    {
        assert(calls_view(self.batch@).len() == self.batch.len());
        if self.batch.len() > 0 {
            self.dispatch(actions);
        } else if self.answer.as_str().is_empty() {
            self.fail(String::from_str("Empty response from model"), actions);
        } else {
            match extract_action(self.answer.as_str()) {
                Some(action) => match read_action(&action) {
                    Some(call) => {
                        let ghost one = call@;
                        let mut batch: Vec<ToolCall> = Vec::new();
                        batch.push(call);
                        assert(calls_view(batch@) =~= seq![one]);
                        self.batch = batch;
                        self.dispatch(actions);
                    },
                    None => {
                        self.finish_done(actions);
                    },
                },
                None => {
                    self.finish_done(actions);
                },
            }
        }
    }

    /// Handles the end of the stream.
    fn on_stream_end(&mut self, actions: &mut Vec<AgentAction>)
        ensures
            final(self)@ == old(self)@.on_stream_end().0,
            acts(final(actions)@) == acts(old(actions)@) + old(self)@.on_stream_end().1,
    {
        let ghost wanted = old(self)@.on_stream_end();
        let rest = from_chars(&self.pending);
        self.pending = Vec::new();
        self.take_line(rest.as_str(), actions);
        let released = self.filter.finish();
        self.release(released, actions);
        self.conclude(actions);
        assert(acts(actions@) =~= acts(old(actions)@) + wanted.1);
    }

    /// Handles the return of the call in flight.
    fn on_result(&mut self, text: String, actions: &mut Vec<AgentAction>)
        ensures
            final(self)@ == old(self)@.on_result(text@).0,
            acts(final(actions)@) == acts(old(actions)@) + old(self)@.on_result(text@).1,
    {
        let ghost wanted = old(self)@.on_result(text@);
        let ghost before = messages_view(self.conversation@);
        push_act(actions, AgentAction::Emit(AppEvent::CommandEnd(text.clone())));
        self.conversation.push(Message::plain(Role::Tool, text));
        assert(messages_view(self.conversation@) =~= before.push(plain(Role::Tool, text@)));
        assert(calls_view(self.batch@).len() == self.batch.len());
        if self.batch.len() > 0 && self.next < self.batch.len() - 1 {
            self.next = self.next + 1;
            self.push_call(self.next, actions);
            assert(acts(actions@) =~= acts(old(actions)@) + wanted.1);
        } else {
            self.begin_turn(actions);
            assert(acts(actions@) =~= acts(old(actions)@) + wanted.1);
        }
    }

    /// Stores the tool schemas and begins the first turn.
    fn on_tools(&mut self, tools: Vec<ToolDefinition>, actions: &mut Vec<AgentAction>)
        ensures
            final(self)@ == (AgentView {
                tools: definitions_view(tools@).map_values(|t: ToolDefinitionView| tool_json(t)),
                ..old(self)@
            }).begin_turn().0,
            acts(final(actions)@) == acts(old(actions)@) + (AgentView {
                tools: definitions_view(tools@).map_values(|t: ToolDefinitionView| tool_json(t)),
                ..old(self)@
            }).begin_turn().1,
    {
        let ghost wanted = definitions_view(tools@).map_values(
            |t: ToolDefinitionView| tool_json(t),
        );
        let mut schemas: Vec<Json> = Vec::new();
        let mut i: usize = 0;
        assert(values_view(schemas@) =~= wanted.take(0));
        while i < tools.len()
            invariant
                i <= tools.len(),
                wanted == definitions_view(tools@).map_values(
                    |t: ToolDefinitionView| tool_json(t),
                ),
                values_view(schemas@) == wanted.take(i as int),
            decreases tools.len() - i,
        {
            let ghost before = values_view(schemas@);
            schemas.push(tool_to_json(&tools[i]));
            i += 1;
            assert(values_view(schemas@) =~= before.push(wanted[i - 1]));
            assert(wanted.take(i as int) =~= wanted.take(i - 1).push(wanted[i - 1]));
        }
        assert(wanted.take(tools.len() as int) =~= wanted);
        self.tools = schemas;
        self.begin_turn(actions);
    }

    /// Takes one event and returns what the driver must do, in order.
    pub fn step(&mut self, event: AgentEvent) -> (actions: Vec<AgentAction>)
        ensures
            final(self)@ == old(self)@.step(event@).0,
            acts(actions@) == old(self)@.step(event@).1,
    {
        let mut actions: Vec<AgentAction> = Vec::new();
        assert(acts(actions@) =~= Seq::empty());
        let ghost wanted = old(self)@.step(event@);
        match self.phase {
            Phase::Created => match event {
                AgentEvent::Start => {
                    self.phase = Phase::AwaitTools;
                    push_act(&mut actions, AgentAction::ListTools);
                },
                _ => {},
            },
            Phase::AwaitTools => match event {
                AgentEvent::ToolsListed(tools) => {
                    self.on_tools(tools, &mut actions);
                },
                AgentEvent::ToolsUnavailable(m) => {
                    self.fail(labelled("Failed to contact MCP: ", m.as_str()), &mut actions);
                },
                _ => {},
            },
            Phase::AwaitResponse => match event {
                AgentEvent::ResponseOk => {
                    self.phase = Phase::Streaming;
                },
                AgentEvent::ResponseRejected(body) => {
                    self.on_rejected(body, &mut actions);
                },
                AgentEvent::ResponseFailed(body) => {
                    self.fail(labelled("Ollama API Error: ", body.as_str()), &mut actions);
                },
                AgentEvent::TransportFailed(m) => {
                    self.fail(labelled("Ollama Connection Error: ", m.as_str()), &mut actions);
                },
                _ => {},
            },
            Phase::Streaming => match event {
                AgentEvent::StreamChunk(chunk) => {
                    self.on_chunk(chunk, &mut actions);
                },
                AgentEvent::StreamFailed(m) => {
                    self.fail(labelled("Stream Error: ", m.as_str()), &mut actions);
                },
                AgentEvent::StreamEnd => {
                    self.on_stream_end(&mut actions);
                },
                _ => {},
            },
            Phase::Dispatching => match event {
                AgentEvent::ToolResult(text) => {
                    self.on_result(text, &mut actions);
                },
                AgentEvent::ToolDropped => {
                    self.on_result(String::from_str("Tool Execution Panicked"), &mut actions);
                },
                AgentEvent::ToolUnreachable(m) => {
                    self.fail(labelled("Failed to call tool: ", m.as_str()), &mut actions);
                },
                _ => {},
            },
            Phase::Finished(_) => {},
        }
        assert(acts(actions@) =~= wanted.1);
        actions
    }

    /// Takes a list of events in order and returns all the actions, in
    /// order.
    pub fn run(&mut self, events: Vec<AgentEvent>) -> (actions: Vec<AgentAction>)
        ensures
            final(self)@ == old(self)@.run(agent_events(events@)).0,
            acts(actions@) == old(self)@.run(agent_events(events@)).1,
    {
        let mut actions: Vec<AgentAction> = Vec::new();
        let mut events = events;
        let ghost all = agent_events(events@);
        let ghost total = events.len();
        let mut done: usize = 0;
        assert(all.take(0) =~= Seq::empty());
        assert(acts(actions@) =~= Seq::empty());
        while events.len() > 0
            invariant
                done + events.len() == total,
                total == all.len(),
                agent_events(events@) == all.skip(done as int),
                self@ == old(self)@.run(all.take(done as int)).0,
                acts(actions@) == old(self)@.run(all.take(done as int)).1,
            decreases events.len(),
        {
            let ghost before = acts(actions@);
            let ghost rest = agent_events(events@);
            let event = events.remove(0);
            assert(agent_events(events@) =~= rest.drop_first());
            assert(event@ == rest[0]);
            assert(rest[0] == all[done as int]);
            let mut produced = self.step(event);
            let ghost fresh = acts(produced@);
            actions.append(&mut produced);
            assert(acts(actions@) =~= before + fresh);
            done += 1;
            proof {
                assert(all.take(done as int).drop_last() =~= all.take(done - 1));
                assert(all.take(done as int).last() == all[done - 1]);
                assert(all.skip(done as int) =~= rest.drop_first());
            }
        }
        assert(all.take(done as int) =~= all);
        actions
    }
}

/// Replays a run: the loop for `config` over the conversation `history`
/// takes `events` in order, and all its actions come back in order.
pub fn run_agent_loop(config: AgentConfig, history: &Vec<ChatMessage>, events: Vec<AgentEvent>) -> (actions:
    Vec<AgentAction>)
    ensures
        acts(actions@) == initial(
            config.model@,
            config.system_prompt@,
            config.max_turns as nat,
            config.scan_tags,
            history@,
        ).run(agent_events(events@)).1,
{
    let mut agent = AgentLoop::new(config, history);
    agent.run(events)
}

} // verus!
