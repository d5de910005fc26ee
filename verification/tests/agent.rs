use agerus::agent::{
    AgentAction, AgentConfig, AgentEvent, Phase, Terminal, AGENT_SYSTEM_PROMPT, MAX_LOOPS,
};
use agerus::agent_loop::{run_agent_loop, AgentLoop};
use agerus::chat::{AppEvent, ChatMessage, MessageRole};
use agerus::executor::ToolCall;
use agerus::json::{Json, Member};
use agerus::protocol::{build_request, tool_to_json, Message, Role};
use agerus::tools::list_tools;

const TOOL_LINE: &str = "{\"message\":{\"role\":\"assistant\",\"content\":\"\",\"tool_calls\":[{\"function\":{\"name\":\"read_file\",\"arguments\":{\"path\":\"a.txt\"}}}]},\"done\":true}\n";

fn config(max_turns: usize) -> AgentConfig {
    AgentConfig {
        model: "m1".to_string(),
        system_prompt: "PROMPT".to_string(),
        max_turns,
        scan_tags: true,
    }
}

fn history() -> Vec<ChatMessage> {
    vec![ChatMessage { role: MessageRole::User, content: "read a.txt".to_string() }]
}

fn read_file_call() -> ToolCall {
    ToolCall {
        name: "read_file".to_string(),
        arguments: Json::object(vec![Member::text("path", "a.txt")]),
    }
}

fn schemas() -> Vec<Json> {
    list_tools().iter().map(tool_to_json).collect()
}

fn started(max_turns: usize) -> AgentLoop {
    let mut agent = AgentLoop::new(config(max_turns), &history());
    assert_eq!(agent.phase(), Phase::Created);
    assert_eq!(agent.step(AgentEvent::Start), vec![AgentAction::ListTools]);
    assert_eq!(agent.phase(), Phase::AwaitTools);
    let actions = agent.step(AgentEvent::ToolsListed(list_tools()));
    let body = build_request("m1", agent.conversation(), Some(&schemas()));
    assert_eq!(actions, vec![AgentAction::SendRequest(body)]);
    assert_eq!(agent.phase(), Phase::AwaitResponse);
    assert_eq!(agent.turns(), 1);
    agent
}

fn chunk(text: &str) -> AgentEvent {
    AgentEvent::StreamChunk(text.to_string())
}

fn content_line(text: &str) -> String {
    let line = Json::object(vec![Member::new(
        "message",
        Json::object(vec![Member::text("content", text)]),
    )]);
    format!("{}\n", render(&line))
}

fn render(value: &Json) -> String {
    match value {
        Json::Null => "null".to_string(),
        Json::Bool(b) => b.to_string(),
        Json::Number(n) => n.clone(),
        Json::Text(t) => format!("{:?}", t),
        Json::Array(items) => {
            let inner: Vec<String> = items.iter().map(render).collect();
            format!("[{}]", inner.join(","))
        }
        Json::Object(fields) => {
            let inner: Vec<String> =
                fields.iter().map(|m| format!("{:?}:{}", m.key, render(&m.value))).collect();
            format!("{{{}}}", inner.join(","))
        }
    }
}

fn requests(actions: &[AgentAction]) -> Vec<&Json> {
    actions
        .iter()
        .filter_map(|a| match a {
            AgentAction::SendRequest(body) => Some(body),
            _ => None,
        })
        .collect()
}

#[test]
fn tools_unavailable_ends_the_run_at_once() {
    let mut agent = AgentLoop::new(config(10), &history());
    agent.step(AgentEvent::Start);
    let actions = agent.step(AgentEvent::ToolsUnavailable("channel closed".to_string()));
    assert_eq!(
        actions,
        vec![
            AgentAction::Emit(AppEvent::Error("Failed to contact MCP: channel closed".to_string())),
            AgentAction::Finish(Terminal::Error),
        ]
    );
    assert_eq!(agent.phase(), Phase::Finished(Terminal::Error));
    assert_eq!(agent.step(AgentEvent::Start), vec![]);
}

#[test]
fn plain_answer_finishes_the_run() {
    let mut agent = started(10);
    assert_eq!(agent.step(AgentEvent::ResponseOk), vec![]);
    assert_eq!(agent.phase(), Phase::Streaming);
    let first = agent.step(chunk(&content_line("Hello, this is ")));
    assert_eq!(first, vec![AgentAction::Emit(AppEvent::Token("Hello, th".to_string()))]);
    let second = agent.step(chunk(&content_line("the answer.")));
    assert_eq!(second, vec![AgentAction::Emit(AppEvent::Token("is is the a".to_string()))]);
    let end = agent.step(AgentEvent::StreamEnd);
    assert_eq!(
        end,
        vec![
            AgentAction::Emit(AppEvent::Token("nswer.".to_string())),
            AgentAction::Finish(Terminal::Done),
        ]
    );
    assert_eq!(agent.phase(), Phase::Finished(Terminal::Done));
    assert_eq!(agent.turns(), 1);
}

#[test]
fn reasoning_span_is_reported_apart_from_the_answer() {
    let mut agent = started(10);
    agent.step(AgentEvent::ResponseOk);
    let mut actions = agent.step(chunk(&content_line("<thi")));
    actions.extend(agent.step(chunk(&content_line("nk>plan</think>ok"))));
    actions.extend(agent.step(AgentEvent::StreamEnd));
    assert_eq!(
        actions,
        vec![
            AgentAction::Emit(AppEvent::Thinking("plan".to_string())),
            AgentAction::Emit(AppEvent::Token("ok".to_string())),
            AgentAction::Finish(Terminal::Done),
        ]
    );
}

#[test]
fn passthrough_leaves_tags_alone() {
    let mut settings = config(10);
    settings.scan_tags = false;
    let mut agent = AgentLoop::new(settings, &history());
    agent.run(vec![AgentEvent::Start, AgentEvent::ToolsListed(list_tools()), AgentEvent::ResponseOk]);
    let line = "{\"message\":{\"thinking\":\"plan\",\"content\":\"<think>x\"}}\n";
    assert_eq!(
        agent.step(chunk(line)),
        vec![
            AgentAction::Emit(AppEvent::Thinking("plan".to_string())),
            AgentAction::Emit(AppEvent::Token("<think>x".to_string())),
        ]
    );
}

#[test]
fn lines_may_arrive_in_pieces() {
    let mut agent = started(10);
    agent.step(AgentEvent::ResponseOk);
    let line = content_line("0123456789");
    let (a, b) = line.split_at(12);
    assert_eq!(agent.step(chunk(a)), vec![]);
    assert_eq!(
        agent.step(chunk(b)),
        vec![AgentAction::Emit(AppEvent::Token("0123".to_string()))]
    );
}

#[test]
fn malformed_and_blank_lines_are_skipped() {
    let mut agent = started(10);
    agent.step(AgentEvent::ResponseOk);
    assert_eq!(agent.step(chunk("not json\n\n   \n{\"broken\":\n")), vec![]);
    let mut actions = agent.step(chunk(&content_line("fine answer")));
    actions.extend(agent.step(AgentEvent::StreamEnd));
    assert_eq!(
        actions,
        vec![
            AgentAction::Emit(AppEvent::Token("fine ".to_string())),
            AgentAction::Emit(AppEvent::Token("answer".to_string())),
            AgentAction::Finish(Terminal::Done),
        ]
    );
}

#[test]
fn turn_without_any_text_is_an_error() {
    let mut agent = started(10);
    agent.step(AgentEvent::ResponseOk);
    agent.step(chunk("garbage\n"));
    assert_eq!(
        agent.step(AgentEvent::StreamEnd),
        vec![
            AgentAction::Emit(AppEvent::Error("Empty response from model".to_string())),
            AgentAction::Finish(Terminal::Error),
        ]
    );
    assert_eq!(agent.phase(), Phase::Finished(Terminal::Error));
}

#[test]
fn error_line_is_reported_and_the_stream_goes_on() {
    let mut agent = started(10);
    agent.step(AgentEvent::ResponseOk);
    assert_eq!(
        agent.step(chunk("{\"error\":\"model overloaded\"}\n")),
        vec![AgentAction::Emit(AppEvent::Error("Ollama Error: model overloaded".to_string()))]
    );
    assert_eq!(agent.phase(), Phase::Streaming);
}

#[test]
fn last_line_without_line_feed_counts() {
    let mut agent = started(10);
    agent.step(AgentEvent::ResponseOk);
    assert_eq!(agent.step(chunk("{\"response\":\"whole\",\"done\":true}")), vec![]);
    assert_eq!(
        agent.step(AgentEvent::StreamEnd),
        vec![
            AgentAction::Emit(AppEvent::Token("whole".to_string())),
            AgentAction::Finish(Terminal::Done),
        ]
    );
}

#[test]
fn structured_call_is_dispatched_and_its_result_appended() {
    let mut agent = started(10);
    agent.step(AgentEvent::ResponseOk);
    assert_eq!(agent.step(chunk(TOOL_LINE)), vec![]);
    assert_eq!(
        agent.step(AgentEvent::StreamEnd),
        vec![
            AgentAction::Emit(AppEvent::CommandStart("read_file(...)".to_string())),
            AgentAction::CallTool(read_file_call()),
        ]
    );
    assert_eq!(agent.phase(), Phase::Dispatching);
    assert_eq!(agent.batch(), &vec![read_file_call()]);
    let actions = agent.step(AgentEvent::ToolResult("content of a".to_string()));
    assert_eq!(agent.turns(), 2);
    let expected = vec![
        Message::plain(Role::System, "PROMPT".to_string()),
        Message::plain(Role::User, "read a.txt".to_string()),
        Message { role: Role::Assistant, content: "".to_string(), tool_calls: vec![read_file_call()] },
        Message::plain(Role::Tool, "content of a".to_string()),
    ];
    assert_eq!(agent.conversation(), &expected);
    assert_eq!(
        actions,
        vec![
            AgentAction::Emit(AppEvent::CommandEnd("content of a".to_string())),
            AgentAction::SendRequest(build_request("m1", &expected, Some(&schemas()))),
        ]
    );
}

#[test]
fn several_calls_are_made_one_at_a_time_in_order() {
    let mut agent = started(10);
    agent.step(AgentEvent::ResponseOk);
    let line = "{\"message\":{\"content\":\"working\",\"tool_calls\":[{\"function\":{\"name\":\"list_files\",\"arguments\":{}}},{\"function\":{\"name\":\"read_file\",\"arguments\":{\"path\":\"a.txt\"}}}]}}\n";
    assert_eq!(agent.step(chunk(line)), vec![AgentAction::Emit(AppEvent::Token("w".to_string()))]);
    let list = ToolCall { name: "list_files".to_string(), arguments: Json::object(vec![]) };
    assert_eq!(
        agent.step(AgentEvent::StreamEnd),
        vec![
            AgentAction::Emit(AppEvent::Token("orking".to_string())),
            AgentAction::Emit(AppEvent::CommandStart("list_files(...)".to_string())),
            AgentAction::CallTool(list.clone()),
        ]
    );
    assert_eq!(
        agent.step(AgentEvent::ToolResult("[FILE] a.txt".to_string())),
        vec![
            AgentAction::Emit(AppEvent::CommandEnd("[FILE] a.txt".to_string())),
            AgentAction::Emit(AppEvent::CommandStart("read_file(...)".to_string())),
            AgentAction::CallTool(read_file_call()),
        ]
    );
    assert_eq!(agent.turns(), 1);
    let after = agent.step(AgentEvent::ToolDropped);
    assert_eq!(
        after[0],
        AgentAction::Emit(AppEvent::CommandEnd("Tool Execution Panicked".to_string()))
    );
    assert_eq!(agent.turns(), 2);
    let roles: Vec<Role> = agent.conversation().iter().map(|m| m.role).collect();
    assert_eq!(
        roles,
        vec![Role::System, Role::User, Role::Assistant, Role::Tool, Role::Tool]
    );
    assert_eq!(agent.conversation()[2].content, "working");
    assert_eq!(agent.conversation()[2].tool_calls, vec![list, read_file_call()]);
    assert_eq!(agent.conversation()[4].content, "Tool Execution Panicked");
}

#[test]
fn action_in_free_text_is_dispatched_when_no_call_was_structured() {
    let mut agent = started(10);
    agent.step(AgentEvent::ResponseOk);
    agent.step(chunk(&content_line("Let's see {\"x\":1} now {\"command\":\"ls\"}")));
    let actions = agent.step(AgentEvent::StreamEnd);
    let call = ToolCall {
        name: "run_command".to_string(),
        arguments: Json::object(vec![Member::text("command", "ls")]),
    };
    assert_eq!(
        actions[actions.len() - 2..],
        [
            AgentAction::Emit(AppEvent::CommandStart("run_command(...)".to_string())),
            AgentAction::CallTool(call.clone()),
        ]
    );
    assert_eq!(agent.batch(), &vec![call]);
    assert_eq!(agent.phase(), Phase::Dispatching);
}

#[test]
fn structured_calls_win_over_text() {
    let mut agent = started(10);
    agent.step(AgentEvent::ResponseOk);
    agent.step(chunk(&content_line("I could run {\"command\":\"rm -rf /\"}")));
    agent.step(chunk(TOOL_LINE));
    agent.step(AgentEvent::StreamEnd);
    assert_eq!(agent.batch(), &vec![read_file_call()]);
}

#[test]
fn model_that_always_calls_a_tool_stops_at_the_cap() {
    let max_turns = 3;
    let mut agent = started(max_turns);
    let mut sent = 1;
    for turn in 1..=max_turns {
        assert_eq!(agent.turns(), turn);
        assert_eq!(agent.phase(), Phase::AwaitResponse);
        agent.step(AgentEvent::ResponseOk);
        agent.step(chunk(TOOL_LINE));
        let dispatched = agent.step(AgentEvent::StreamEnd);
        assert_eq!(dispatched.len(), 2);
        let after = agent.step(AgentEvent::ToolResult("text".to_string()));
        if turn < max_turns {
            assert_eq!(requests(&after).len(), 1);
            sent += 1;
        } else {
            assert_eq!(
                after,
                vec![
                    AgentAction::Emit(AppEvent::CommandEnd("text".to_string())),
                    AgentAction::Emit(AppEvent::Error(
                        "Stopped after 3 turns: the cap on turns was reached.".to_string()
                    )),
                    AgentAction::Finish(Terminal::CapReached),
                ]
            );
        }
    }
    assert_eq!(sent, max_turns);
    assert_eq!(agent.turns(), max_turns);
    assert_eq!(agent.phase(), Phase::Finished(Terminal::CapReached));
    assert_eq!(agent.step(AgentEvent::ResponseOk), vec![]);
}

#[test]
fn cap_of_zero_turns_ends_before_any_request() {
    let mut agent = AgentLoop::new(config(0), &history());
    agent.step(AgentEvent::Start);
    assert_eq!(
        agent.step(AgentEvent::ToolsListed(list_tools())),
        vec![
            AgentAction::Emit(AppEvent::Error(
                "Stopped after 0 turns: the cap on turns was reached.".to_string()
            )),
            AgentAction::Finish(Terminal::CapReached),
        ]
    );
}

#[test]
fn rejected_tools_cause_one_retry_without_tools() {
    let mut agent = started(10);
    assert!(!agent.tools_disabled());
    let actions = agent.step(AgentEvent::ResponseRejected("does not support tools".to_string()));
    assert_eq!(
        actions,
        vec![
            AgentAction::Emit(AppEvent::Thinking(
                "Model 'm1' rejected tools. Falling back to text-only mode.".to_string()
            )),
            AgentAction::SendRequest(build_request("m1", agent.conversation(), None)),
        ]
    );
    assert!(!requests(&actions)[0].has_key("tools"));
    assert!(agent.tools_disabled());
    assert_eq!(agent.turns(), 1);
    assert_eq!(agent.phase(), Phase::AwaitResponse);
}

#[test]
fn later_requests_omit_tools_for_the_rest_of_the_run() {
    let mut agent = started(10);
    agent.step(AgentEvent::ResponseRejected("no tools".to_string()));
    for _ in 0..3 {
        agent.step(AgentEvent::ResponseOk);
        agent.step(chunk(&content_line("run {\"command\":\"ls\"}")));
        agent.step(AgentEvent::StreamEnd);
        let after = agent.step(AgentEvent::ToolResult("a.txt".to_string()));
        let sent = requests(&after);
        assert_eq!(sent.len(), 1);
        assert!(!sent[0].has_key("tools"));
        assert!(sent[0].has_key("messages"));
        assert!(agent.tools_disabled());
    }
}

#[test]
fn second_rejection_is_fatal() {
    let mut agent = started(10);
    agent.step(AgentEvent::ResponseRejected("no tools".to_string()));
    assert_eq!(
        agent.step(AgentEvent::ResponseRejected("still bad".to_string())),
        vec![
            AgentAction::Emit(AppEvent::Error("Ollama API Error: still bad".to_string())),
            AgentAction::Finish(Terminal::Error),
        ]
    );
}

#[test]
fn failures_of_the_service_are_fatal() {
    let mut failed = started(10);
    assert_eq!(
        failed.step(AgentEvent::ResponseFailed("internal error".to_string())),
        vec![
            AgentAction::Emit(AppEvent::Error("Ollama API Error: internal error".to_string())),
            AgentAction::Finish(Terminal::Error),
        ]
    );
    let mut unreachable = started(10);
    assert_eq!(
        unreachable.step(AgentEvent::TransportFailed("connection refused".to_string())),
        vec![
            AgentAction::Emit(AppEvent::Error(
                "Ollama Connection Error: connection refused".to_string()
            )),
            AgentAction::Finish(Terminal::Error),
        ]
    );
    let mut broken = started(10);
    broken.step(AgentEvent::ResponseOk);
    assert_eq!(
        broken.step(AgentEvent::StreamFailed("reset".to_string())),
        vec![
            AgentAction::Emit(AppEvent::Error("Stream Error: reset".to_string())),
            AgentAction::Finish(Terminal::Error),
        ]
    );
}

#[test]
fn unreachable_tool_server_is_fatal() {
    let mut agent = started(10);
    agent.run(vec![AgentEvent::ResponseOk, chunk(TOOL_LINE), AgentEvent::StreamEnd]);
    assert_eq!(
        agent.step(AgentEvent::ToolUnreachable("closed".to_string())),
        vec![
            AgentAction::Emit(AppEvent::Error("Failed to call tool: closed".to_string())),
            AgentAction::Finish(Terminal::Error),
        ]
    );
}

#[test]
fn unexpected_events_change_nothing() {
    let mut agent = started(10);
    assert_eq!(agent.step(AgentEvent::StreamEnd), vec![]);
    assert_eq!(agent.step(AgentEvent::ToolResult("x".to_string())), vec![]);
    assert_eq!(agent.step(chunk(TOOL_LINE)), vec![]);
    assert_eq!(agent.phase(), Phase::AwaitResponse);
    assert_eq!(agent.turns(), 1);
}

#[test]
fn run_is_the_steps_in_order() {
    let mut stepwise = started(10);
    let mut expected = Vec::new();
    for event in [AgentEvent::ResponseOk, chunk(TOOL_LINE), AgentEvent::StreamEnd] {
        expected.extend(stepwise.step(event));
    }
    let mut at_once = started(10);
    let actions = at_once.run(vec![AgentEvent::ResponseOk, chunk(TOOL_LINE), AgentEvent::StreamEnd]);
    assert_eq!(actions, expected);
    assert_eq!(at_once.phase(), stepwise.phase());
}

#[test]
fn replay_of_a_whole_run() {
    let events = vec![
        AgentEvent::Start,
        AgentEvent::ToolsListed(list_tools()),
        AgentEvent::ResponseOk,
        chunk(TOOL_LINE),
        AgentEvent::StreamEnd,
        AgentEvent::ToolResult("content".to_string()),
        AgentEvent::ResponseOk,
        chunk(&content_line("All done.")),
        AgentEvent::StreamEnd,
    ];
    let actions = run_agent_loop(config(10), &history(), events);
    assert_eq!(actions[0], AgentAction::ListTools);
    assert_eq!(requests(&actions).len(), 2);
    assert_eq!(actions.last(), Some(&AgentAction::Finish(Terminal::Done)));
    let shown: String = actions
        .iter()
        .filter_map(|a| match a {
            AgentAction::Emit(AppEvent::Token(t)) => Some(t.as_str()),
            _ => None,
        })
        .collect();
    assert_eq!(shown, "All done.");
}

#[test]
fn tool_results_stand_behind_their_calls() {
    let mut agent = started(10);
    for _ in 0..3 {
        agent.run(vec![
            AgentEvent::ResponseOk,
            chunk(TOOL_LINE),
            AgentEvent::StreamEnd,
            AgentEvent::ToolResult("r".to_string()),
        ]);
    }
    let conversation = agent.conversation();
    for (i, message) in conversation.iter().enumerate() {
        if message.role == Role::Tool {
            let before = &conversation[i - 1];
            assert!(
                before.role == Role::Tool
                    || (before.role == Role::Assistant && !before.tool_calls.is_empty())
            );
        }
    }
    assert_eq!(conversation.iter().filter(|m| m.role == Role::Tool).count(), 3);
}

#[test]
fn usual_settings() {
    let settings = AgentConfig::for_model("qwen".to_string());
    assert_eq!(settings.model, "qwen");
    assert_eq!(settings.max_turns, 10);
    assert_eq!(MAX_LOOPS, 10);
    assert!(settings.scan_tags);
    assert_eq!(settings.system_prompt, AGENT_SYSTEM_PROMPT);
    assert!(AGENT_SYSTEM_PROMPT.starts_with("\nYou are Agerus, an expert software development agent"));
    assert!(AGENT_SYSTEM_PROMPT.contains("ALWAYS run `list_files`"));
    assert!(AGENT_SYSTEM_PROMPT.ends_with("overwriting content blindly.\n"));
}
