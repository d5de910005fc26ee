use agerus::chat::{ChatMessage, MessageRole};
use agerus::executor::ToolCall;
use agerus::json::{Json, Member};
use agerus::protocol::{
    build_request, build_transcript, call_to_json, copy_calls, message_to_json, role_text,
    to_protocol_role, tool_to_json, Message, Role,
};
use agerus::response::{
    keep_nonempty, read_action, read_call, read_stream_line, take_complete_lines, StreamLine,
};
use agerus::text::to_chars;
use agerus::tools::list_tools;

fn read_file_call() -> ToolCall {
    ToolCall {
        name: "read_file".to_string(),
        arguments: Json::object(vec![Member::text("path", "a.txt")]),
    }
}

#[test]
fn roles_of_the_conversation_map_to_protocol_roles() {
    assert_eq!(to_protocol_role(MessageRole::User), Role::User);
    assert_eq!(to_protocol_role(MessageRole::Assistant), Role::Assistant);
    assert_eq!(to_protocol_role(MessageRole::Thinking), Role::Assistant);
    assert_eq!(to_protocol_role(MessageRole::System), Role::System);
    assert_eq!(to_protocol_role(MessageRole::Error), Role::System);
    assert_eq!(role_text(Role::System), "system");
    assert_eq!(role_text(Role::User), "user");
    assert_eq!(role_text(Role::Assistant), "assistant");
    assert_eq!(role_text(Role::Tool), "tool");
}

#[test]
fn transcript_starts_with_the_system_prompt() {
    let history = vec![
        ChatMessage { role: MessageRole::System, content: "Ready.".to_string() },
        ChatMessage { role: MessageRole::User, content: "hi".to_string() },
        ChatMessage { role: MessageRole::Thinking, content: "hm".to_string() },
    ];
    assert_eq!(
        build_transcript("PROMPT", &history),
        vec![
            Message::plain(Role::System, "PROMPT".to_string()),
            Message::plain(Role::System, "Ready.".to_string()),
            Message::plain(Role::User, "hi".to_string()),
            Message::plain(Role::Assistant, "hm".to_string()),
        ]
    );
    assert_eq!(
        build_transcript("P", &vec![]),
        vec![Message::plain(Role::System, "P".to_string())]
    );
}

#[test]
fn call_in_wire_shape() {
    let json = call_to_json(&read_file_call());
    let function = json.get("function").unwrap();
    assert_eq!(function.text_field("name"), Some("read_file".to_string()));
    assert_eq!(function.get("arguments"), Some(&read_file_call().arguments));
    assert_eq!(read_call(&json), Some(read_file_call()));
}

#[test]
fn message_in_wire_shape() {
    let plain = Message::plain(Role::Tool, "result".to_string());
    assert_eq!(
        message_to_json(&plain),
        Json::object(vec![Member::text("role", "tool"), Member::text("content", "result")])
    );
    let with_calls = Message {
        role: Role::Assistant,
        content: "".to_string(),
        tool_calls: vec![read_file_call()],
    };
    let json = message_to_json(&with_calls);
    assert_eq!(json.text_field("role"), Some("assistant".to_string()));
    assert_eq!(
        json.get("tool_calls"),
        Some(&Json::array(vec![call_to_json(&read_file_call())]))
    );
    assert_eq!(copy_calls(&with_calls.tool_calls), with_calls.tool_calls);
}

#[test]
fn tool_in_wire_shape() {
    let tools = list_tools();
    let json = tool_to_json(&tools[0]);
    assert_eq!(json.text_field("type"), Some("function".to_string()));
    let function = json.get("function").unwrap();
    assert_eq!(function.text_field("name"), Some("run_command".to_string()));
    assert_eq!(
        function.text_field("description"),
        Some("Run a shell command in the Docker container.".to_string())
    );
    assert_eq!(function.get("parameters"), Some(&tools[0].input_schema));
}

#[test]
fn request_with_and_without_tools() {
    let messages = vec![Message::plain(Role::User, "hi".to_string())];
    let tools = vec![tool_to_json(&list_tools()[0])];
    let with = build_request("m1", &messages, Some(&tools));
    assert_eq!(
        with,
        Json::object(vec![
            Member::text("model", "m1"),
            Member::new("messages", Json::array(vec![message_to_json(&messages[0])])),
            Member::new("tools", Json::array(tools.clone())),
            Member::new("stream", Json::Bool(true)),
        ])
    );
    let without = build_request("m1", &messages, None);
    assert!(!without.has_key("tools"));
    assert_eq!(without.get("stream"), Some(&Json::Bool(true)));
    assert_eq!(without.get("messages"), with.get("messages"));
}

#[test]
fn partial_message_line() {
    let line = Json::parse(
        "{\"model\":\"m\",\"message\":{\"role\":\"assistant\",\"content\":\"Hel\",\"thinking\":\"hm\"},\"done\":false}",
    )
    .unwrap();
    assert_eq!(
        read_stream_line(&line),
        StreamLine {
            error: None,
            reasoning: Some("hm".to_string()),
            content: Some("Hel".to_string()),
            calls: vec![],
        }
    );
}

#[test]
fn empty_thinking_hides_the_other_reasoning_field() {
    let both = Json::parse("{\"message\":{\"thinking\":\"\",\"reasoning_content\":\"r\"}}").unwrap();
    assert_eq!(read_stream_line(&both).reasoning, None);
    let other = Json::parse("{\"message\":{\"reasoning_content\":\"r\",\"content\":\"\"}}").unwrap();
    let read = read_stream_line(&other);
    assert_eq!(read.reasoning, Some("r".to_string()));
    assert_eq!(read.content, None);
}

#[test]
fn line_with_calls_and_error() {
    let line = Json::parse(
        "{\"error\":\"overloaded\",\"message\":{\"content\":\"\",\"tool_calls\":[{\"function\":{\"name\":\"read_file\",\"arguments\":{\"path\":\"a.txt\"}}},{\"id\":\"no function\"},{\"function\":{\"name\":\"list_files\"}}]},\"done\":true}",
    )
    .unwrap();
    let read = read_stream_line(&line);
    assert_eq!(read.error, Some("overloaded".to_string()));
    assert_eq!(read.content, None);
    assert_eq!(
        read.calls,
        vec![
            read_file_call(),
            ToolCall { name: "list_files".to_string(), arguments: Json::object(vec![]) },
        ]
    );
}

#[test]
fn single_shot_body() {
    let line = Json::parse("{\"response\":\"whole answer\",\"done\":true,\"context\":[1,2]}").unwrap();
    assert_eq!(
        read_stream_line(&line),
        StreamLine {
            error: None,
            reasoning: None,
            content: Some("whole answer".to_string()),
            calls: vec![],
        }
    );
    assert_eq!(read_stream_line(&Json::Null).content, None);
}

#[test]
fn nonempty_keeps_text_only() {
    assert_eq!(keep_nonempty(Some("x".to_string())), Some("x".to_string()));
    assert_eq!(keep_nonempty(Some(String::new())), None);
    assert_eq!(keep_nonempty(None), None);
}

#[test]
fn actions_in_their_shapes() {
    let wire = Json::parse("{\"function\":{\"name\":\"read_file\",\"arguments\":{\"path\":\"a.txt\"}}}").unwrap();
    assert_eq!(read_action(&wire), Some(read_file_call()));
    let tool = Json::parse("{\"tool\":\"read_file\",\"arguments\":{\"path\":\"a.txt\"}}").unwrap();
    assert_eq!(read_action(&tool), Some(read_file_call()));
    let name = Json::parse("{\"name\":\"read_file\",\"arguments\":{\"path\":\"a.txt\"}}").unwrap();
    assert_eq!(read_action(&name), Some(read_file_call()));
    let command = Json::parse("{\"command\":\"ls\"}").unwrap();
    assert_eq!(
        read_action(&command),
        Some(ToolCall {
            name: "run_command".to_string(),
            arguments: Json::object(vec![Member::text("command", "ls")]),
        })
    );
    let bare = Json::parse("{\"tool\":\"list_files\"}").unwrap();
    assert_eq!(
        read_action(&bare),
        Some(ToolCall { name: "list_files".to_string(), arguments: Json::object(vec![]) })
    );
    assert_eq!(read_action(&Json::parse("{\"command\":5}").unwrap()), None);
    assert_eq!(read_action(&Json::parse("{\"name\":{}}").unwrap()), None);
}

#[test]
fn complete_lines_leave_the_rest() {
    let mut buffer = to_chars("one\ntwo\r\n\nthr");
    assert_eq!(take_complete_lines(&mut buffer), vec!["one", "two\r", ""]);
    assert_eq!(buffer, to_chars("thr"));
    assert_eq!(take_complete_lines(&mut buffer), Vec::<String>::new());
    assert_eq!(buffer, to_chars("thr"));
    let mut ends = to_chars("ee\n");
    assert_eq!(take_complete_lines(&mut ends), vec!["ee"]);
    assert!(ends.is_empty());
}
