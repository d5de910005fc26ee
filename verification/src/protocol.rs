//! The model service's protocol: the roles of a transcript, the body of an
//! outgoing request, and what one line of a streamed response carries.

use vstd::prelude::*;
use vstd::string::*;
use crate::chat::{ChatMessage, MessageRole};
use crate::executor::{ToolCall, ToolCallView};
use crate::json::{members_view, values_view, Json, JsonView, Member, MemberView};
use crate::tools::{ToolDefinition, ToolDefinitionView};

verus! {

/// Who speaks in a transcript sent to the service.
#[derive(Clone, Copy, Debug, PartialEq, Eq, Structural)]
pub enum Role {
    System,
    User,
    Assistant,
    Tool,
}

/// One message of the transcript.
#[derive(Clone, Debug, PartialEq, Eq)]
pub struct Message {
    pub role: Role,
    pub content: String,
    /// The calls that an assistant message carries.
    pub tool_calls: Vec<ToolCall>,
}

pub struct MessageView {
    pub role: Role,
    pub content: Seq<char>,
    pub tool_calls: Seq<ToolCallView>,
}

/// The views of a list of calls.
pub open spec fn calls_view(calls: Seq<ToolCall>) -> Seq<ToolCallView> {
    calls.map_values(|c: ToolCall| c@)
}

impl View for Message {
    type V = MessageView;

    open spec fn view(&self) -> MessageView {
        MessageView {
            role: self.role,
            content: self.content@,
            tool_calls: calls_view(self.tool_calls@),
        }
    }
}

/// The views of a list of messages.
pub open spec fn messages_view(messages: Seq<Message>) -> Seq<MessageView> {
    messages.map_values(|m: Message| m@)
}

/// The role under which a message of the conversation is sent: reasoning
/// counts as the assistant's, notices and errors are context.
pub open spec fn protocol_role(role: MessageRole) -> Role {
    match role {
        MessageRole::User => Role::User,
        MessageRole::Assistant => Role::Assistant,
        MessageRole::Thinking => Role::Assistant,
        MessageRole::System => Role::System,
        MessageRole::Error => Role::System,
    }
}

/// The name of a role on the wire.
pub open spec fn role_name(role: Role) -> Seq<char> {
    match role {
        Role::System => "system"@,
        Role::User => "user"@,
        Role::Assistant => "assistant"@,
        Role::Tool => "tool"@,
    }
}

/// A message without calls.
pub open spec fn plain(role: Role, content: Seq<char>) -> MessageView {
    MessageView { role, content, tool_calls: Seq::empty() }
}

/// The transcript that a run starts with: the system prompt, then the
/// conversation so far under its protocol roles.
pub open spec fn transcript(prompt: Seq<char>, history: Seq<ChatMessage>) -> Seq<MessageView> {
    seq![plain(Role::System, prompt)] + history.map_values(
        |m: ChatMessage| plain(protocol_role(m.role), m.content@),
    )
}

/// A call in wire shape.
pub open spec fn call_json(call: ToolCallView) -> JsonView {
    JsonView::Object(
        seq![
            MemberView {
                key: "function"@,
                value: JsonView::Object(
                    seq![
                        MemberView { key: "name"@, value: JsonView::Text(call.name) },
                        MemberView { key: "arguments"@, value: call.arguments },
                    ],
                ),
            },
        ],
    )
}

/// A message in wire shape. Calls are named only where there are some.
pub open spec fn message_json(message: MessageView) -> JsonView {
    let head = seq![
        MemberView { key: "role"@, value: JsonView::Text(role_name(message.role)) },
        MemberView { key: "content"@, value: JsonView::Text(message.content) },
    ];
    if message.tool_calls.len() == 0 {
        JsonView::Object(head)
    } else {
        JsonView::Object(
            head.push(
                MemberView {
                    key: "tool_calls"@,
                    value: JsonView::Array(
                        message.tool_calls.map_values(|c: ToolCallView| call_json(c)),
                    ),
                },
            ),
        )
    }
}

/// A tool definition in wire shape.
pub open spec fn tool_json(tool: ToolDefinitionView) -> JsonView {
    JsonView::Object(
        seq![
            MemberView { key: "type"@, value: JsonView::Text("function"@) },
            MemberView {
                key: "function"@,
                value: JsonView::Object(
                    seq![
                        MemberView { key: "name"@, value: JsonView::Text(tool.name) },
                        MemberView { key: "description"@, value: JsonView::Text(tool.description) },
                        MemberView { key: "parameters"@, value: tool.input_schema },
                    ],
                ),
            },
        ],
    )
}

/// The body of a streaming request. With `tools` absent the body has no
/// `tools` field at all.
pub open spec fn request_body(
    model: Seq<char>,
    messages: Seq<MessageView>,
    tools: Option<Seq<JsonView>>,
) -> JsonView {
    let head = seq![
        MemberView { key: "model"@, value: JsonView::Text(model) },
        MemberView {
            key: "messages"@,
            value: JsonView::Array(messages.map_values(|m: MessageView| message_json(m))),
        },
    ];
    let stream = MemberView { key: "stream"@, value: JsonView::Bool(true) };
    match tools {
        Some(list) => JsonView::Object(
            head.push(MemberView { key: "tools"@, value: JsonView::Array(list) }).push(stream),
        ),
        None => JsonView::Object(head.push(stream)),
    }
}

/// The role under which a message of the conversation is sent.
pub fn to_protocol_role(role: MessageRole) -> (out: Role)
    ensures
        out == protocol_role(role),
{
    match role {
        MessageRole::User => Role::User,
        MessageRole::Assistant => Role::Assistant,
        MessageRole::Thinking => Role::Assistant,
        MessageRole::System => Role::System,
        MessageRole::Error => Role::System,
    }
}

/// The name of a role on the wire.
pub fn role_text(role: Role) -> (name: &'static str)
    ensures
        name@ == role_name(role),
{
    match role {
        Role::System => "system",
        Role::User => "user",
        Role::Assistant => "assistant",
        Role::Tool => "tool",
    }
}

impl Message {
    /// A message without calls.
    pub fn plain(role: Role, content: String) -> (message: Message)
        ensures
            message@ == plain(role, content@),
    {
        let message = Message { role, content, tool_calls: Vec::new() };
        assert(calls_view(message.tool_calls@) =~= Seq::empty());
        message
    }
}

impl ToolCall {
    /// A copy of this call.
    pub fn copy(&self) -> (call: ToolCall)
        ensures
            call@ == self@,
    {
        ToolCall { name: self.name.clone(), arguments: self.arguments.deep_clone() }
    }
}

/// A copy of a list of calls.
pub fn copy_calls(calls: &Vec<ToolCall>) -> (out: Vec<ToolCall>)
    ensures
        calls_view(out@) == calls_view(calls@),
{
    let mut out: Vec<ToolCall> = Vec::new();
    let mut i: usize = 0;
    while i < calls.len()
        invariant
            i <= calls.len(),
            calls_view(out@) == calls_view(calls@).take(i as int),
        decreases calls.len() - i,
    {
        let ghost before = calls_view(out@);
        let ghost all = calls_view(calls@);
        out.push(calls[i].copy());
        i += 1;
        assert(calls_view(out@) =~= before.push(all[i - 1]));
        assert(all.take(i as int) =~= all.take(i - 1).push(all[i - 1]));
    }
    assert(calls_view(calls@).take(calls.len() as int) =~= calls_view(calls@));
    out
}

/// The transcript that a run starts with.
pub fn build_transcript(prompt: &str, history: &Vec<ChatMessage>) -> (messages: Vec<Message>)
    ensures
        messages_view(messages@) == transcript(prompt@, history@),
{
    let mut messages: Vec<Message> = Vec::new();
    messages.push(Message::plain(Role::System, prompt.to_owned()));
    let mut i: usize = 0;
    assert(messages_view(messages@) =~= transcript(prompt@, history@.take(0)));
    while i < history.len()
        invariant
            i <= history.len(),
            messages_view(messages@) == transcript(prompt@, history@.take(i as int)),
        decreases history.len() - i,
    {
        let role = to_protocol_role(history[i].role);
        let ghost before = messages_view(messages@);
        let ghost added = plain(protocol_role(history[i as int].role), history[i as int].content@);
        messages.push(Message::plain(role, history[i].content.clone()));
        i += 1;
        assert(messages_view(messages@) =~= before.push(added));
        assert(history@.take(i as int) =~= history@.take(i - 1).push(history[i - 1]));
        assert(history@.take(i as int).map_values(
            |m: ChatMessage| plain(protocol_role(m.role), m.content@),
        ) =~= history@.take(i - 1).map_values(
            |m: ChatMessage| plain(protocol_role(m.role), m.content@),
        ).push(added));
        assert(messages_view(messages@) =~= transcript(prompt@, history@.take(i as int)));
    }
    assert(history@.take(history.len() as int) =~= history@);
    messages
}

/// A call in wire shape.
pub fn call_to_json(call: &ToolCall) -> (json: Json)
    ensures
        json@ == call_json(call@),
{
    let mut inner: Vec<Member> = Vec::new();
    inner.push(Member::text("name", call.name.as_str()));
    inner.push(Member::new("arguments", call.arguments.deep_clone()));
    assert(members_view(inner@) =~= seq![
        MemberView { key: "name"@, value: JsonView::Text(call.name@) },
        MemberView { key: "arguments"@, value: call.arguments@ },
    ]);
    let mut outer: Vec<Member> = Vec::new();
    outer.push(Member::new("function", Json::object(inner)));
    assert(members_view(outer@) =~= seq![
        MemberView {
            key: "function"@,
            value: JsonView::Object(
                seq![
                    MemberView { key: "name"@, value: JsonView::Text(call.name@) },
                    MemberView { key: "arguments"@, value: call.arguments@ },
                ],
            ),
        },
    ]);
    Json::object(outer)
}

/// A message in wire shape.
pub fn message_to_json(message: &Message) -> (json: Json)
    ensures
        json@ == message_json(message@),
{
    let mut fields: Vec<Member> = Vec::new();
    fields.push(Member::text("role", role_text(message.role)));
    fields.push(Member::text("content", message.content.as_str()));
    let ghost head = seq![
        MemberView { key: "role"@, value: JsonView::Text(role_name(message.role)) },
        MemberView { key: "content"@, value: JsonView::Text(message.content@) },
    ];
    assert(members_view(fields@) =~= head);
    assert(calls_view(message.tool_calls@).len() == message.tool_calls.len());
    if message.tool_calls.len() > 0 {
        let mut calls: Vec<Json> = Vec::new();
        let mut i: usize = 0;
        let ghost wanted = message@.tool_calls.map_values(|c: ToolCallView| call_json(c));
        while i < message.tool_calls.len()
            invariant
                i <= message.tool_calls.len(),
                wanted == message@.tool_calls.map_values(|c: ToolCallView| call_json(c)),
                values_view(calls@) == wanted.take(i as int),
            decreases message.tool_calls.len() - i,
        {
            let ghost before = values_view(calls@);
            calls.push(call_to_json(&message.tool_calls[i]));
            i += 1;
            assert(values_view(calls@) =~= before.push(wanted[i - 1]));
            assert(wanted.take(i as int) =~= wanted.take(i - 1).push(wanted[i - 1]));
        }
        assert(wanted.take(message.tool_calls.len() as int) =~= wanted);
        fields.push(Member::new("tool_calls", Json::array(calls)));
        assert(members_view(fields@) =~= head.push(
            MemberView { key: "tool_calls"@, value: JsonView::Array(wanted) },
        ));
    }
    Json::object(fields)
}

/// A tool definition in wire shape.
pub fn tool_to_json(tool: &ToolDefinition) -> (json: Json)
    ensures
        json@ == tool_json(tool@),
{
    let mut inner: Vec<Member> = Vec::new();
    inner.push(Member::text("name", tool.name.as_str()));
    inner.push(Member::text("description", tool.description.as_str()));
    inner.push(Member::new("parameters", tool.input_schema.deep_clone()));
    assert(members_view(inner@) =~= seq![
        MemberView { key: "name"@, value: JsonView::Text(tool.name@) },
        MemberView { key: "description"@, value: JsonView::Text(tool.description@) },
        MemberView { key: "parameters"@, value: tool.input_schema@ },
    ]);
    let mut outer: Vec<Member> = Vec::new();
    outer.push(Member::text("type", "function"));
    outer.push(Member::new("function", Json::object(inner)));
    assert(members_view(outer@) =~= seq![
        MemberView { key: "type"@, value: JsonView::Text("function"@) },
        MemberView {
            key: "function"@,
            value: JsonView::Object(
                seq![
                    MemberView { key: "name"@, value: JsonView::Text(tool.name@) },
                    MemberView { key: "description"@, value: JsonView::Text(tool.description@) },
                    MemberView { key: "parameters"@, value: tool.input_schema@ },
                ],
            ),
        },
    ]);
    Json::object(outer)
}

/// A copy of a list of values.
pub fn copy_values(values: &Vec<Json>) -> (out: Vec<Json>)
    ensures
        values_view(out@) == values_view(values@),
{
    let mut out: Vec<Json> = Vec::new();
    let mut i: usize = 0;
    while i < values.len()
        invariant
            i <= values.len(),
            values_view(out@) == values_view(values@).take(i as int),
        decreases values.len() - i,
    {
        let ghost before = values_view(out@);
        let ghost all = values_view(values@);
        out.push(values[i].deep_clone());
        i += 1;
        assert(values_view(out@) =~= before.push(all[i - 1]));
        assert(all.take(i as int) =~= all.take(i - 1).push(all[i - 1]));
    }
    assert(values_view(values@).take(values.len() as int) =~= values_view(values@));
    out
}

/// The body of a streaming request for `model` with the transcript
/// `messages`, and with the tool schemas `tools` if any are to be sent.
pub fn build_request(model: &str, messages: &Vec<Message>, tools: Option<&Vec<Json>>) -> (body:
    Json)
    ensures
        body@ == request_body(
            model@,
            messages_view(messages@),
            match tools {
                Some(list) => Some(values_view(list@)),
                None => None,
            },
        ),
{
    let mut sent: Vec<Json> = Vec::new();
    let mut i: usize = 0;
    let ghost wanted = messages_view(messages@).map_values(|m: MessageView| message_json(m));
    while i < messages.len()
        invariant
            i <= messages.len(),
            wanted == messages_view(messages@).map_values(|m: MessageView| message_json(m)),
            values_view(sent@) == wanted.take(i as int),
        decreases messages.len() - i,
    {
        let ghost before = values_view(sent@);
        sent.push(message_to_json(&messages[i]));
        i += 1;
        assert(values_view(sent@) =~= before.push(wanted[i - 1]));
        assert(wanted.take(i as int) =~= wanted.take(i - 1).push(wanted[i - 1]));
    }
    assert(wanted.take(messages.len() as int) =~= wanted);
    let mut fields: Vec<Member> = Vec::new();
    fields.push(Member::text("model", model));
    fields.push(Member::new("messages", Json::array(sent)));
    let ghost head = seq![
        MemberView { key: "model"@, value: JsonView::Text(model@) },
        MemberView { key: "messages"@, value: JsonView::Array(wanted) },
    ];
    assert(members_view(fields@) =~= head);
    let ghost stream = MemberView { key: "stream"@, value: JsonView::Bool(true) };
    match tools {
        Some(list) => {
            fields.push(Member::new("tools", Json::array(copy_values(list))));
            fields.push(Member::new("stream", Json::Bool(true)));
            assert(members_view(fields@) =~= head.push(
                MemberView { key: "tools"@, value: JsonView::Array(values_view(list@)) },
            ).push(stream));
        },
        None => {
            fields.push(Member::new("stream", Json::Bool(true)));
            assert(members_view(fields@) =~= head.push(stream));
        },
    }
    Json::object(fields)
}

} // verus!
