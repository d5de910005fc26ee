//! The state behind the screen: the conversation, the input line, the two
//! views and their scroll positions. Keys, mouse and progress events change
//! it; what has to happen outside of it (saving, loading, starting the agent,
//! typing into the shell) comes back as commands for the driver.

use vstd::prelude::*;
use vstd::string::*;
use crate::chat::{
    append_content, appended, chat_view, AppEvent, AppEventView, AppMode, ChatMessage,
    ChatMessageView, MessageRole,
};
use crate::clip::{byte_len, utf8_len};
use crate::lines::{join, join_strings, split_words, texts, words};
use crate::number::{decimal, decimal_text};
use crate::text::{is_blank, starts_with, starts_with_text, text_eq, to_chars, trim};

verus! {

/// Longest command output, in bytes, that is shown in the conversation.
pub const SHOWN_OUTPUT_CAP: usize = 200;

/// Lines that a page key scrolls.
pub const PAGE_STEP: u16 = 10;

/// A key of the keyboard.
#[derive(Clone, Copy, Debug, PartialEq, Eq, Structural)]
pub enum Key {
    Tab,
    Esc,
    Up,
    Down,
    PageUp,
    PageDown,
    Char(char),
    Backspace,
    /// The enter key, alone or with the alt key.
    Enter { alt: bool },
    Other,
}

/// A move of the mouse wheel.
#[derive(Clone, Copy, Debug, PartialEq, Eq, Structural)]
pub enum Wheel {
    Up,
    Down,
    Other,
}

/// What the driver must do.
#[derive(Clone, Debug, PartialEq, Eq)]
pub enum AppCommand {
    /// Save these messages under this session name; report a failure with
    /// `save_failed`.
    SaveSession { name: String, messages: Vec<ChatMessage> },
    /// Start a new session under this name, or under a name made from the
    /// clock; answer with `start_new_session`.
    NewSession(Option<String>),
    /// Load the session of this name; answer with `session_loaded` or
    /// `load_failed`.
    LoadSession(String),
    /// List the saved sessions; answer with `sessions_listed` or
    /// `list_failed`.
    ListSessions,
    /// Start the agent loop over this conversation.
    StartAgent(Vec<ChatMessage>),
    /// Stop the agent loop.
    AbortAgent,
    /// Type this text into the shell.
    SendToShell(String),
}

pub enum AppCommandView {
    SaveSession { name: Seq<char>, messages: Seq<ChatMessageView> },
    NewSession(Option<Seq<char>>),
    LoadSession(Seq<char>),
    ListSessions,
    StartAgent(Seq<ChatMessageView>),
    AbortAgent,
    SendToShell(Seq<char>),
}

impl View for AppCommand {
    type V = AppCommandView;

    open spec fn view(&self) -> AppCommandView {
        match self {
            AppCommand::SaveSession { name, messages } => AppCommandView::SaveSession {
                name: name@,
                messages: chat_view(messages@),
            },
            AppCommand::NewSession(n) => AppCommandView::NewSession(
                match n {
                    Some(name) => Some(name@),
                    None => None,
                },
            ),
            AppCommand::LoadSession(n) => AppCommandView::LoadSession(n@),
            AppCommand::ListSessions => AppCommandView::ListSessions,
            AppCommand::StartAgent(h) => AppCommandView::StartAgent(chat_view(h@)),
            AppCommand::AbortAgent => AppCommandView::AbortAgent,
            AppCommand::SendToShell(t) => AppCommandView::SendToShell(t@),
        }
    }
}

/// The views of a list of commands.
pub open spec fn commands_view(commands: Seq<AppCommand>) -> Seq<AppCommandView> {
    commands.map_values(|c: AppCommand| c@)
}

/// The state behind the screen.
#[derive(Clone, Debug, PartialEq, Eq)]
pub struct App {
    pub mode: AppMode,
    pub input_buffer: String,
    pub messages: Vec<ChatMessage>,
    pub current_session: String,
    /// First line of the conversation that is shown, unless the view sticks
    /// to the bottom.
    pub chat_scroll: u16,
    pub chat_stick_to_bottom: bool,
    pub terminal_lines: Vec<String>,
    /// The selected line of the terminal view.
    pub term_scroll: Option<usize>,
    pub spinner_frame: usize,
    pub is_processing: bool,
}

pub struct AppView {
    pub mode: AppMode,
    pub input: Seq<char>,
    pub messages: Seq<ChatMessageView>,
    pub session: Seq<char>,
    pub chat_scroll: u16,
    pub stick: bool,
    pub terminal: Seq<Seq<char>>,
    pub selected: Option<usize>,
    pub spinner: usize,
    pub processing: bool,
}

impl View for App {
    type V = AppView;

    open spec fn view(&self) -> AppView {
        AppView {
            mode: self.mode,
            input: self.input_buffer@,
            messages: chat_view(self.messages@),
            session: self.current_session@,
            chat_scroll: self.chat_scroll,
            stick: self.chat_stick_to_bottom,
            terminal: texts(self.terminal_lines@),
            selected: self.term_scroll,
            spinner: self.spinner_frame,
            processing: self.is_processing,
        }
    }
}

/// `a - b`, or zero where that would be negative.
pub open spec fn minus(a: int, b: int) -> int {
    if a >= b {
        a - b
    } else {
        0
    }
}

/// `a + b`, or `top` where that would be more.
pub open spec fn plus(a: int, b: int, top: int) -> int {
    if a + b <= top {
        a + b
    } else {
        top
    }
}

/// How the output of a command is shown: as it is when it is short, else
/// as a note of its size.
pub open spec fn shown_output(output: Seq<char>) -> Seq<char> {
    if utf8_len(output) > SHOWN_OUTPUT_CAP {
        "Output ("@ + decimal(utf8_len(output)) + " bytes) sent to terminal."@
    } else {
        output
    }
}

impl AppView {
    /// A notice joins the conversation, and the view follows it.
    pub open spec fn notify(self, content: Seq<char>, role: MessageRole) -> AppView {
        AppView {
            messages: self.messages.push(ChatMessageView { role, content }),
            stick: true,
            ..self
        }
    }

    /// Streamed text joins the conversation, and the view follows it.
    pub open spec fn receive(self, content: Seq<char>, role: MessageRole) -> AppView {
        AppView { messages: appended(self.messages, content, role), stick: true, ..self }
    }

    /// The command that saves the conversation as it stands.
    pub open spec fn save(self) -> AppCommandView {
        AppCommandView::SaveSession { name: self.session, messages: self.messages }
    }

    /// One line up.
    pub open spec fn scroll_up(self) -> AppView {
        self.scroll_by(-1)
    }

    /// One line down.
    pub open spec fn scroll_down(self) -> AppView {
        self.scroll_by(1)
    }

    /// `amount` lines down, or up where it is negative. The conversation
    /// stops sticking to the bottom; neither position leaves its range.
    pub open spec fn scroll_by(self, amount: int) -> AppView {
        match self.mode {
            AppMode::Chat => AppView {
                stick: false,
                chat_scroll: if amount < 0 {
                    minus(self.chat_scroll as int, -amount) as u16
                } else {
                    plus(self.chat_scroll as int, amount, u16::MAX as int) as u16
                },
                ..self
            },
            AppMode::Terminal => {
                let at = match self.selected {
                    Some(i) => i as int,
                    None => 0,
                };
                AppView {
                    selected: Some(
                        if amount < 0 {
                            minus(at, -amount) as usize
                        } else {
                            plus(at, amount, usize::MAX as int) as usize
                        },
                    ),
                    ..self
                }
            },
        }
    }

    /// A line of shell output joins the terminal view, which follows it if
    /// its last line was selected, or none was.
    pub open spec fn terminal_line(self, line: Seq<char>) -> AppView {
        let at_bottom = match self.selected {
            Some(i) => i as int >= minus(self.terminal.len() as int, 1),
            None => true,
        };
        AppView {
            terminal: self.terminal.push(line),
            selected: if at_bottom {
                Some(self.terminal.len() as usize)
            } else {
                self.selected
            },
            ..self
        }
    }

    /// What a progress event does to the state, and what has to be done
    /// for it.
    pub open spec fn on_event(self, event: AppEventView) -> (AppView, Seq<AppCommandView>) {
        match event {
            AppEventView::Tick => (
                if self.processing {
                    AppView {
                        spinner: if self.spinner == usize::MAX {
                            0
                        } else {
                            (self.spinner + 1) as usize
                        },
                        ..self
                    }
                } else {
                    self
                },
                Seq::empty(),
            ),
            AppEventView::Token(t) => (self.receive(t, MessageRole::Assistant), Seq::empty()),
            AppEventView::Thinking(t) => (self.receive(t, MessageRole::Thinking), Seq::empty()),
            AppEventView::CommandStart(c) => (
                self.notify("\u{1F6E0}\u{FE0F} "@ + c, MessageRole::System),
                Seq::empty(),
            ),
            AppEventView::CommandEnd(o) => (
                self.notify(shown_output(o), MessageRole::System),
                Seq::empty(),
            ),
            AppEventView::TerminalLine(l) => (self.terminal_line(l), Seq::empty()),
            AppEventView::AgentFinished => {
                let next = AppView { processing: false, ..self };
                (next, seq![next.save()])
            },
            AppEventView::Error(e) => {
                let next = AppView { processing: false, ..self.notify(e, MessageRole::Error) };
                (next, seq![next.save()])
            },
        }
    }

    /// The agent is stopped at the user's wish.
    pub open spec fn abort(self) -> (AppView, Seq<AppCommandView>) {
        let next = AppView {
            processing: false,
            ..self.notify("\u{1F6D1} Cancelled by user."@, MessageRole::System)
        };
        (next, seq![AppCommandView::AbortAgent, next.save()])
    }

    /// The input line is submitted. A blank line does nothing. A line that
    /// begins with a slash and a known command word is that command. Any
    /// other line goes to the agent in the chat view, and to the shell in
    /// the terminal view.
    pub open spec fn submit(self) -> (AppView, Seq<AppCommandView>) {
        if trim(self.input).len() == 0 {
            (self, Seq::empty())
        } else {
            let text = self.input;
            let parts = words(text);
            let cleared = AppView { input: Seq::empty(), ..self };
            let word = if starts_with(text, "/"@) && parts.len() > 0 {
                parts[0]
            } else {
                Seq::empty()
            };
            if word == "/new"@ {
                (
                    cleared,
                    seq![
                        AppCommandView::NewSession(
                            if parts.len() > 1 {
                                Some(parts[1])
                            } else {
                                None
                            },
                        ),
                    ],
                )
            } else if word == "/save"@ {
                (
                    cleared.notify("Saved '"@ + self.session + "'"@, MessageRole::System),
                    seq![cleared.save()],
                )
            } else if word == "/load"@ {
                if parts.len() > 1 {
                    (cleared, seq![AppCommandView::LoadSession(parts[1])])
                } else {
                    (
                        cleared.notify("Usage: /load <session_name>"@, MessageRole::Error),
                        Seq::empty(),
                    )
                }
            } else if word == "/list"@ {
                (cleared, seq![AppCommandView::ListSessions])
            } else if word == "/reset"@ {
                (
                    (AppView { messages: Seq::empty(), ..cleared }).notify(
                        "Context reset."@,
                        MessageRole::System,
                    ),
                    Seq::empty(),
                )
            } else {
                match self.mode {
                    AppMode::Chat => {
                        let next = AppView {
                            processing: true,
                            ..cleared.notify(text, MessageRole::User)
                        };
                        (next, seq![next.save(), AppCommandView::StartAgent(next.messages)])
                    },
                    AppMode::Terminal => (cleared, seq![AppCommandView::SendToShell(text)]),
                }
            }
        }
    }

    /// What a key does to the state, and what has to be done for it. While
    /// the agent runs, the input line takes no keys.
    pub open spec fn on_key(self, key: Key) -> (AppView, Seq<AppCommandView>) {
        match key {
            Key::Tab => (
                AppView {
                    mode: match self.mode {
                        AppMode::Chat => AppMode::Terminal,
                        AppMode::Terminal => AppMode::Chat,
                    },
                    ..self
                },
                Seq::empty(),
            ),
            Key::Esc => if self.processing {
                self.abort()
            } else {
                (self, Seq::empty())
            },
            Key::Up => (self.scroll_up(), Seq::empty()),
            Key::Down => (self.scroll_down(), Seq::empty()),
            Key::PageUp => (self.scroll_by(-(PAGE_STEP as int)), Seq::empty()),
            Key::PageDown => (self.scroll_by(PAGE_STEP as int), Seq::empty()),
            Key::Char(c) => if self.processing {
                (self, Seq::empty())
            } else {
                (AppView { input: self.input.push(c), ..self }, Seq::empty())
            },
            Key::Backspace => if self.processing || self.input.len() == 0 {
                (self, Seq::empty())
            } else {
                (AppView { input: self.input.drop_last(), ..self }, Seq::empty())
            },
            Key::Enter { alt } => if self.processing {
                (self, Seq::empty())
            } else if alt {
                (AppView { input: self.input.push('\n'), ..self }, Seq::empty())
            } else {
                self.submit()
            },
            Key::Other => (self, Seq::empty()),
        }
    }

    /// A new session begins under `name`, with an empty conversation.
    pub open spec fn new_session(self, name: Seq<char>) -> (AppView, Seq<AppCommandView>) {
        let next = (AppView { messages: Seq::empty(), session: name, ..self }).notify(
            "New Session: "@ + name,
            MessageRole::System,
        );
        (next, seq![next.save()])
    }

    /// The session `name` was loaded: its messages are the conversation.
    pub open spec fn loaded(self, name: Seq<char>, messages: Seq<ChatMessageView>) -> AppView {
        (AppView { messages, session: name, ..self }).notify(
            "Session '"@ + name + "' loaded."@,
            MessageRole::System,
        )
    }
}

/// The state at the start of the program.
pub open spec fn opening(model: Seq<char>, session: Seq<char>) -> AppView {
    AppView {
        mode: AppMode::Chat,
        input: Seq::empty(),
        messages: seq![
            ChatMessageView { role: MessageRole::System, content: "Ready. Model: "@ + model },
        ],
        session,
        chat_scroll: 0,
        stick: true,
        terminal: seq!["--- Shell Connected ---"@],
        selected: None,
        spinner: 0,
        processing: false,
    }
}

/// A copy of a conversation.
pub fn copy_messages(messages: &Vec<ChatMessage>) -> (out: Vec<ChatMessage>)
    ensures
        chat_view(out@) == chat_view(messages@),
{
    let mut out: Vec<ChatMessage> = Vec::new();
    let mut i: usize = 0;
    while i < messages.len()
        invariant
            i <= messages.len(),
            chat_view(out@) == chat_view(messages@).take(i as int),
        decreases messages.len() - i,
    {
        let ghost before = chat_view(out@);
        let ghost all = chat_view(messages@);
        out.push(ChatMessage { role: messages[i].role, content: messages[i].content.clone() });
        i += 1;
        assert(chat_view(out@) =~= before.push(all[i - 1]));
        assert(all.take(i as int) =~= all.take(i - 1).push(all[i - 1]));
    }
    assert(chat_view(messages@).take(messages.len() as int) =~= chat_view(messages@));
    out
}

/// How the output of a command is shown.
pub fn show_output(output: String) -> (shown: String)
    ensures
        shown@ == shown_output(output@),
{
    let size = byte_len(output.as_str());
    if size > SHOWN_OUTPUT_CAP {
        let mut shown = String::from_str("Output (");
        shown.append(decimal_text(size).as_str());
        shown.append(" bytes) sent to terminal.");
        shown
    } else {
        output
    }
}

/// Appends one command.
fn push_command(commands: &mut Vec<AppCommand>, command: AppCommand)
    ensures
        commands_view(final(commands)@) == commands_view(old(commands)@).push(command@),
{
    let ghost added = command@;
    commands.push(command);
    assert(commands_view(commands@) =~= commands_view(old(commands)@).push(added));
}

impl App {
    /// The state at the start of the program, for the model `model` and
    /// the session `session`.
    pub fn new(model: &str, session: String) -> (app: App)
        ensures
            app@ == opening(model@, session@),
    {
        let mut ready = String::from_str("Ready. Model: ");
        ready.append(model);
        let mut messages: Vec<ChatMessage> = Vec::new();
        messages.push(ChatMessage { role: MessageRole::System, content: ready });
        let mut terminal_lines: Vec<String> = Vec::new();
        terminal_lines.push(String::from_str("--- Shell Connected ---"));
        let app = App {
            mode: AppMode::Chat,
            input_buffer: String::new(),
            messages,
            current_session: session,
            chat_scroll: 0,
            chat_stick_to_bottom: true,
            terminal_lines,
            term_scroll: None,
            spinner_frame: 0,
            is_processing: false,
        };
        assert(app@.messages =~= opening(model@, session@).messages);
        assert(app@.terminal =~= opening(model@, session@).terminal);
        app
    }

    /// Adds a notice to the conversation.
    pub fn add_system_message(&mut self, content: String, role: MessageRole)
        ensures
            final(self)@ == old(self)@.notify(content@, role),
    {
        let ghost before = chat_view(self.messages@);
        self.messages.push(ChatMessage { role, content });
        self.chat_stick_to_bottom = true;
        assert(chat_view(self.messages@) =~= before.push(ChatMessageView { role, content: content@ }));
    }

    /// Adds streamed text to the conversation.
    pub fn append_message_content(&mut self, content: String, role: MessageRole)
        ensures
            final(self)@ == old(self)@.receive(content@, role),
    {
        append_content(&mut self.messages, content, role);
        self.chat_stick_to_bottom = true;
    }

    /// The command that saves the conversation as it stands.
    pub fn save_current_session(&self) -> (command: AppCommand)
        ensures
            command@ == self@.save(),
    {
        AppCommand::SaveSession {
            name: self.current_session.clone(),
            messages: copy_messages(&self.messages),
        }
    }

    /// Saving failed: the conversation says so.
    pub fn save_failed(&mut self, error: &str)
        ensures
            final(self)@ == old(self)@.notify("Auto-save failed: "@ + error@, MessageRole::Error),
    {
        let mut text = String::from_str("Auto-save failed: ");
        text.append(error);
        self.add_system_message(text, MessageRole::Error);
    }

    /// Begins a new session under `name`.
    pub fn start_new_session(&mut self, name: String) -> (commands: Vec<AppCommand>)
        ensures
            final(self)@ == old(self)@.new_session(name@).0,
            commands_view(commands@) == old(self)@.new_session(name@).1,
    {
        let mut notice = String::from_str("New Session: ");
        notice.append(name.as_str());
        self.messages = Vec::new();
        assert(chat_view(self.messages@) =~= Seq::empty());
        self.current_session = name;
        self.add_system_message(notice, MessageRole::System);
        let mut commands: Vec<AppCommand> = Vec::new();
        assert(commands_view(commands@) =~= Seq::empty());
        push_command(&mut commands, self.save_current_session());
        assert(commands_view(commands@) =~= old(self)@.new_session(name@).1);
        commands
    }

    /// The session `name` was loaded with these messages.
    pub fn load_session_by_name(&mut self, name: String, messages: Vec<ChatMessage>)
        ensures
            final(self)@ == old(self)@.loaded(name@, chat_view(messages@)),
    {
        let mut notice = String::from_str("Session '");
        notice.append(name.as_str());
        notice.append("' loaded.");
        self.messages = messages;
        self.current_session = name;
        self.add_system_message(notice, MessageRole::System);
    }

    /// Loading a session failed: the conversation says so.
    pub fn load_failed(&mut self, error: &str)
        ensures
            final(self)@ == old(self)@.notify("Failed to load: "@ + error@, MessageRole::Error),
    {
        let mut text = String::from_str("Failed to load: ");
        text.append(error);
        self.add_system_message(text, MessageRole::Error);
    }

    /// The saved sessions were listed: the conversation shows them.
    pub fn sessions_listed(&mut self, names: &Vec<String>)
        ensures
            final(self)@ == old(self)@.notify(
                "Available Sessions:\n- "@ + join(texts(names@), "\n- "@),
                MessageRole::System,
            ),
    {
        let mut text = String::from_str("Available Sessions:\n- ");
        text.append(join_strings(names, "\n- ").as_str());
        self.add_system_message(text, MessageRole::System);
    }

    /// Listing the sessions failed: the conversation says so.
    pub fn list_failed(&mut self, error: &str)
        ensures
            final(self)@ == old(self)@.notify("List failed: "@ + error@, MessageRole::Error),
    {
        let mut text = String::from_str("List failed: ");
        text.append(error);
        self.add_system_message(text, MessageRole::Error);
    }

    /// Scrolls the view that is shown by `amount` lines: down, or up where
    /// `amount` is negative.
    pub fn scroll_page(&mut self, amount: i16)
        ensures
            final(self)@ == old(self)@.scroll_by(amount as int),
    {
        let up = amount < 0;
        let by: u16 = if amount < 0 {
            if amount == i16::MIN {
                32768
            } else {
                (-amount) as u16
            }
        } else {
            amount as u16
        };
        match self.mode {
            AppMode::Chat => {
                self.chat_stick_to_bottom = false;
                if up {
                    self.chat_scroll = if self.chat_scroll >= by {
                        self.chat_scroll - by
                    } else {
                        0
                    };
                } else {
                    self.chat_scroll = if self.chat_scroll <= u16::MAX - by {
                        self.chat_scroll + by
                    } else {
                        u16::MAX
                    };
                }
            },
            AppMode::Terminal => {
                let at: usize = match self.term_scroll {
                    Some(i) => i,
                    None => 0,
                };
                let step: usize = by as usize;
                if up {
                    self.term_scroll = Some(
                        if at >= step {
                            at - step
                        } else {
                            0
                        },
                    );
                } else {
                    self.term_scroll = Some(
                        if at <= usize::MAX - step {
                            at + step
                        } else {
                            usize::MAX
                        },
                    );
                }
            },
        }
    }

    /// One line up.
    pub fn scroll_up(&mut self)
        ensures
            final(self)@ == old(self)@.scroll_up(),
    {
        self.scroll_page(-1);
    }

    /// One line down.
    pub fn scroll_down(&mut self)
        ensures
            final(self)@ == old(self)@.scroll_down(),
    {
        self.scroll_page(1);
    }

    /// The mouse wheel scrolls the view that is shown.
    pub fn handle_mouse_event(&mut self, wheel: Wheel)
        ensures
            final(self)@ == match wheel {
                Wheel::Down => old(self)@.scroll_down(),
                Wheel::Up => old(self)@.scroll_up(),
                Wheel::Other => old(self)@,
            },
    {
        match wheel {
            Wheel::Down => self.scroll_down(),
            Wheel::Up => self.scroll_up(),
            Wheel::Other => {},
        }
    }

    /// Stops the agent at the user's wish.
    pub fn abort_agent(&mut self) -> (commands: Vec<AppCommand>)
        ensures
            final(self)@ == old(self)@.abort().0,
            commands_view(commands@) == old(self)@.abort().1,
    {
        self.add_system_message(
            String::from_str("\u{1F6D1} Cancelled by user."),
            MessageRole::System,
        );
        self.is_processing = false;
        let mut commands: Vec<AppCommand> = Vec::new();
        assert(commands_view(commands@) =~= Seq::empty());
        push_command(&mut commands, AppCommand::AbortAgent);
        push_command(&mut commands, self.save_current_session());
        assert(commands_view(commands@) =~= old(self)@.abort().1);
        commands
    }

    /// Takes a progress event.
    pub fn handle_internal_event(&mut self, event: AppEvent) -> (commands: Vec<AppCommand>)
        ensures
            final(self)@ == old(self)@.on_event(event@).0,
            commands_view(commands@) == old(self)@.on_event(event@).1,
    {
        let mut commands: Vec<AppCommand> = Vec::new();
        assert(commands_view(commands@) =~= Seq::empty());
        match event {
            AppEvent::Tick => {
                if self.is_processing {
                    self.spinner_frame = if self.spinner_frame == usize::MAX {
                        0
                    } else {
                        self.spinner_frame + 1
                    };
                }
            },
            AppEvent::Token(t) => {
                self.append_message_content(t, MessageRole::Assistant);
            },
            AppEvent::Thinking(t) => {
                self.append_message_content(t, MessageRole::Thinking);
            },
            AppEvent::CommandStart(c) => {
                let mut text = String::from_str("\u{1F6E0}\u{FE0F} ");
                text.append(c.as_str());
                self.add_system_message(text, MessageRole::System);
            },
            AppEvent::CommandEnd(o) => {
                self.add_system_message(show_output(o), MessageRole::System);
            },
            AppEvent::TerminalLine(l) => {
                let count = self.terminal_lines.len();
                let at_bottom = match self.term_scroll {
                    Some(i) => count == 0 || i >= count - 1,
                    None => true,
                };
                let ghost before = texts(self.terminal_lines@);
                self.terminal_lines.push(l);
                assert(texts(self.terminal_lines@) =~= before.push(l@));
                if at_bottom {
                    self.term_scroll = Some(count);
                }
            },
            AppEvent::AgentFinished => {
                self.is_processing = false;
                push_command(&mut commands, self.save_current_session());
                assert(commands_view(commands@) =~= old(self)@.on_event(event@).1);
            },
            AppEvent::Error(e) => {
                self.add_system_message(e, MessageRole::Error);
                self.is_processing = false;
                push_command(&mut commands, self.save_current_session());
                assert(commands_view(commands@) =~= old(self)@.on_event(event@).1);
            },
        }
        commands
    }

    /// Submits the input line.
    pub fn submit_message(&mut self) -> (commands: Vec<AppCommand>)
        ensures
            final(self)@ == old(self)@.submit().0,
            commands_view(commands@) == old(self)@.submit().1,
    {
        let mut commands: Vec<AppCommand> = Vec::new();
        assert(commands_view(commands@) =~= Seq::empty());
        if is_blank(self.input_buffer.as_str()) {
            return commands;
        }
        let ghost wanted = old(self)@.submit();
        let text = self.input_buffer.clone();
        self.input_buffer = String::new();
        let parts = split_words(text.as_str());
        assert(texts(parts@).len() == parts.len());
        let slash = starts_with_text(text.as_str(), "/") && parts.len() > 0;
        let ghost word = if slash {
            parts[0]@
        } else {
            Seq::<char>::empty()
        };
        proof {
            reveal_strlit("/new");
            reveal_strlit("/save");
            reveal_strlit("/load");
            reveal_strlit("/list");
            reveal_strlit("/reset");
            if slash {
                assert(texts(parts@)[0] == parts[0]@);
            }
            if parts.len() > 1 {
                assert(texts(parts@)[1] == parts[1]@);
            }
            assert(word.len() == 0 ==> word != "/new"@ && word != "/save"@ && word != "/load"@
                && word != "/list"@ && word != "/reset"@);
        }
        if slash && text_eq(parts[0].as_str(), "/new") {
            let name = if parts.len() > 1 {
                Some(parts[1].clone())
            } else {
                None
            };
            push_command(&mut commands, AppCommand::NewSession(name));
            assert(commands_view(commands@) =~= wanted.1);
        } else if slash && text_eq(parts[0].as_str(), "/save") {
            push_command(&mut commands, self.save_current_session());
            let mut notice = String::from_str("Saved '");
            notice.append(self.current_session.as_str());
            notice.append("'");
            self.add_system_message(notice, MessageRole::System);
            assert(commands_view(commands@) =~= wanted.1);
        } else if slash && text_eq(parts[0].as_str(), "/load") {
            if parts.len() > 1 {
                push_command(&mut commands, AppCommand::LoadSession(parts[1].clone()));
                assert(commands_view(commands@) =~= wanted.1);
            } else {
                self.add_system_message(
                    String::from_str("Usage: /load <session_name>"),
                    MessageRole::Error,
                );
            }
        } else if slash && text_eq(parts[0].as_str(), "/list") {
            push_command(&mut commands, AppCommand::ListSessions);
            assert(commands_view(commands@) =~= wanted.1);
        } else if slash && text_eq(parts[0].as_str(), "/reset") {
            self.messages = Vec::new();
            assert(chat_view(self.messages@) =~= Seq::empty());
            self.add_system_message(String::from_str("Context reset."), MessageRole::System);
        } else {
            match self.mode {
                AppMode::Chat => {
                    self.add_system_message(text, MessageRole::User);
                    self.is_processing = true;
                    push_command(&mut commands, self.save_current_session());
                    push_command(
                        &mut commands,
                        AppCommand::StartAgent(copy_messages(&self.messages)),
                    );
                    assert(commands_view(commands@) =~= wanted.1);
                },
                AppMode::Terminal => {
                    push_command(&mut commands, AppCommand::SendToShell(text));
                    assert(commands_view(commands@) =~= wanted.1);
                },
            }
        }
        commands
    }

    /// Takes a key.
    pub fn handle_key_event(&mut self, key: Key) -> (commands: Vec<AppCommand>)
        ensures
            final(self)@ == old(self)@.on_key(key).0,
            commands_view(commands@) == old(self)@.on_key(key).1,
    {
        let none: Vec<AppCommand> = Vec::new();
        assert(commands_view(none@) =~= Seq::empty());
        match key {
            Key::Tab => {
                self.mode = self.mode.toggled();
                none
            },
            Key::Esc => {
                if self.is_processing {
                    self.abort_agent()
                } else {
                    none
                }
            },
            Key::Up => {
                self.scroll_up();
                none
            },
            Key::Down => {
                self.scroll_down();
                none
            },
            Key::PageUp => {
                self.scroll_page(-10);
                none
            },
            Key::PageDown => {
                self.scroll_page(10);
                none
            },
            Key::Char(c) => {
                if !self.is_processing {
                    self.input_buffer.push(c);
                }
                none
            },
            Key::Backspace => {
                if !self.is_processing {
                    let chars = to_chars(self.input_buffer.as_str());
                    if chars.len() > 0 {
                        self.input_buffer = crate::text::slice_string(&chars, 0, chars.len() - 1);
                        assert(self.input_buffer@ =~= old(self)@.input.drop_last());
                    }
                }
                none
            },
            Key::Enter { alt } => {
                if self.is_processing {
                    none
                } else if alt {
                    self.input_buffer.push('\n');
                    none
                } else {
                    self.submit_message()
                }
            },
            Key::Other => none,
        }
    }
}

} // verus!
