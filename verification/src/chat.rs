//! The conversation as the presentation layer sees it: messages tagged with a
//! role, and the progress events through which the core reports what it does.

use vstd::prelude::*;

verus! {

/// Which view has the keyboard.
#[derive(Clone, Copy, Debug, PartialEq, Eq, Structural)]
pub enum AppMode {
    Chat,
    Terminal,
}

/// Who a message is from.
#[derive(Clone, Copy, Debug, PartialEq, Eq, Structural)]
pub enum MessageRole {
    User,
    Assistant,
    System,
    Error,
    Thinking,
}

/// One message of the conversation.
#[derive(Clone, Debug, PartialEq, Eq)]
pub struct ChatMessage {
    pub role: MessageRole,
    pub content: String,
}

/// Progress reported by the core to the presentation layer.
#[derive(Clone, Debug, PartialEq, Eq)]
pub enum AppEvent {
    /// Answer text.
    Token(String),
    /// Reasoning text, or a notice about the run.
    Thinking(String),
    /// The agent loop has ended.
    AgentFinished,
    /// A tool call is about to run.
    CommandStart(String),
    /// A tool call has ended, with its result.
    CommandEnd(String),
    /// One line of raw shell output.
    TerminalLine(String),
    /// A fatal condition.
    Error(String),
    /// Timer tick.
    Tick,
}

pub enum AppEventView {
    Token(Seq<char>),
    Thinking(Seq<char>),
    AgentFinished,
    CommandStart(Seq<char>),
    CommandEnd(Seq<char>),
    TerminalLine(Seq<char>),
    Error(Seq<char>),
    Tick,
}

impl View for AppEvent {
    type V = AppEventView;

    open spec fn view(&self) -> AppEventView {
        match self {
            AppEvent::Token(t) => AppEventView::Token(t@),
            AppEvent::Thinking(t) => AppEventView::Thinking(t@),
            AppEvent::AgentFinished => AppEventView::AgentFinished,
            AppEvent::CommandStart(c) => AppEventView::CommandStart(c@),
            AppEvent::CommandEnd(o) => AppEventView::CommandEnd(o@),
            AppEvent::TerminalLine(l) => AppEventView::TerminalLine(l@),
            AppEvent::Error(e) => AppEventView::Error(e@),
            AppEvent::Tick => AppEventView::Tick,
        }
    }
}

pub struct ChatMessageView {
    pub role: MessageRole,
    pub content: Seq<char>,
}

impl View for ChatMessage {
    type V = ChatMessageView;

    open spec fn view(&self) -> ChatMessageView {
        ChatMessageView { role: self.role, content: self.content@ }
    }
}

/// The views of a list of messages.
pub open spec fn chat_view(messages: Seq<ChatMessage>) -> Seq<ChatMessageView> {
    messages.map_values(|m: ChatMessage| m@)
}

/// Whether text of this role continues the last message of the same role:
/// answer text and reasoning text arrive in pieces.
pub open spec fn continues(role: MessageRole) -> bool {
    role is Assistant || role is Thinking
}

/// The conversation after text of `role` arrived: the text joins the last
/// message where that has the same role and the role arrives in pieces;
/// else it is a new message.
pub open spec fn appended(
    messages: Seq<ChatMessageView>,
    content: Seq<char>,
    role: MessageRole,
) -> Seq<ChatMessageView> {
    if messages.len() > 0 && messages.last().role == role && continues(role) {
        messages.drop_last().push(
            ChatMessageView { role, content: messages.last().content + content },
        )
    } else {
        messages.push(ChatMessageView { role, content })
    }
}

/// Adds text of `role` to the conversation.
pub fn append_content(messages: &mut Vec<ChatMessage>, content: String, role: MessageRole)
    ensures
        chat_view(final(messages)@) == appended(chat_view(old(messages)@), content@, role),
{
    let ghost before = chat_view(messages@);
    let joins = match role {
        MessageRole::Assistant => true,
        MessageRole::Thinking => true,
        _ => false,
    };
    if joins && messages.len() > 0 && messages[messages.len() - 1].role == role {
        let last = messages.pop().unwrap();
        assert(chat_view(messages@) =~= before.drop_last());
        assert(last@ == before.last());
        let mut text = last.content;
        text.append(content.as_str());
        messages.push(ChatMessage { role, content: text });
        assert(chat_view(messages@) =~= appended(before, content@, role));
    } else {
        messages.push(ChatMessage { role, content });
        assert(chat_view(messages@) =~= appended(before, content@, role));
    }
}

impl AppMode {
    /// The other view.
    pub fn toggled(self) -> (mode: AppMode)
        ensures
            mode != self,
    {
        match self {
            AppMode::Chat => AppMode::Terminal,
            AppMode::Terminal => AppMode::Chat,
        }
    }
}

} // verus!
