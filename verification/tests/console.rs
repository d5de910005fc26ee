use agerus::chat::{append_content, AppEvent, AppMode, ChatMessage, MessageRole};
use agerus::console::{copy_messages, show_output, App, AppCommand, Key, Wheel};

fn app() -> App {
    App::new("qwen", "chat_1".to_string())
}

fn message(role: MessageRole, content: &str) -> ChatMessage {
    ChatMessage { role, content: content.to_string() }
}

fn typed(app: &mut App, text: &str) {
    for c in text.chars() {
        assert_eq!(app.handle_key_event(Key::Char(c)), vec![]);
    }
}

fn save_of(app: &App) -> AppCommand {
    AppCommand::SaveSession { name: app.current_session.clone(), messages: app.messages.clone() }
}

#[test]
fn opening_state() {
    let app = app();
    assert_eq!(app.mode, AppMode::Chat);
    assert_eq!(app.messages, vec![message(MessageRole::System, "Ready. Model: qwen")]);
    assert_eq!(app.terminal_lines, vec!["--- Shell Connected ---"]);
    assert_eq!(app.current_session, "chat_1");
    assert_eq!(app.input_buffer, "");
    assert_eq!(app.chat_scroll, 0);
    assert!(app.chat_stick_to_bottom);
    assert_eq!(app.term_scroll, None);
    assert!(!app.is_processing);
}

#[test]
fn streamed_text_joins_the_last_message_of_its_role() {
    let mut messages = vec![message(MessageRole::User, "hi")];
    append_content(&mut messages, "Hel".to_string(), MessageRole::Assistant);
    append_content(&mut messages, "lo".to_string(), MessageRole::Assistant);
    append_content(&mut messages, "hm".to_string(), MessageRole::Thinking);
    append_content(&mut messages, "m".to_string(), MessageRole::Thinking);
    append_content(&mut messages, "!".to_string(), MessageRole::Assistant);
    assert_eq!(
        messages,
        vec![
            message(MessageRole::User, "hi"),
            message(MessageRole::Assistant, "Hello"),
            message(MessageRole::Thinking, "hmm"),
            message(MessageRole::Assistant, "!"),
        ]
    );
}

#[test]
fn notices_never_join() {
    let mut messages = Vec::new();
    for role in [MessageRole::System, MessageRole::System, MessageRole::User, MessageRole::User, MessageRole::Error, MessageRole::Error] {
        append_content(&mut messages, "x".to_string(), role);
    }
    assert_eq!(messages.len(), 6);
}

#[test]
fn tokens_and_thoughts_reach_the_conversation() {
    let mut app = app();
    app.chat_stick_to_bottom = false;
    assert_eq!(app.handle_internal_event(AppEvent::Thinking("plan".to_string())), vec![]);
    assert!(app.chat_stick_to_bottom);
    app.handle_internal_event(AppEvent::Token("ans".to_string()));
    app.handle_internal_event(AppEvent::Token("wer".to_string()));
    assert_eq!(
        app.messages[1..],
        [message(MessageRole::Thinking, "plan"), message(MessageRole::Assistant, "answer")]
    );
}

#[test]
fn command_events_become_notices() {
    let mut app = app();
    app.handle_internal_event(AppEvent::CommandStart("read_file(...)".to_string()));
    app.handle_internal_event(AppEvent::CommandEnd("short".to_string()));
    app.handle_internal_event(AppEvent::CommandEnd("x".repeat(201)));
    app.handle_internal_event(AppEvent::CommandEnd("é".repeat(100)));
    app.handle_internal_event(AppEvent::CommandEnd("é".repeat(101)));
    assert_eq!(
        app.messages[1..],
        [
            message(MessageRole::System, "\u{1F6E0}\u{FE0F} read_file(...)"),
            message(MessageRole::System, "short"),
            message(MessageRole::System, "Output (201 bytes) sent to terminal."),
            message(MessageRole::System, &"é".repeat(100)),
            message(MessageRole::System, "Output (202 bytes) sent to terminal."),
        ]
    );
    assert_eq!(show_output("x".repeat(200)), "x".repeat(200));
}

#[test]
fn tick_turns_the_spinner_only_while_processing() {
    let mut app = app();
    app.handle_internal_event(AppEvent::Tick);
    assert_eq!(app.spinner_frame, 0);
    app.is_processing = true;
    app.handle_internal_event(AppEvent::Tick);
    assert_eq!(app.spinner_frame, 1);
    app.spinner_frame = usize::MAX;
    app.handle_internal_event(AppEvent::Tick);
    assert_eq!(app.spinner_frame, 0);
}

#[test]
fn terminal_follows_its_last_line() {
    let mut app = app();
    app.handle_internal_event(AppEvent::TerminalLine("one".to_string()));
    assert_eq!(app.term_scroll, Some(1));
    app.handle_internal_event(AppEvent::TerminalLine("two".to_string()));
    assert_eq!(app.term_scroll, Some(2));
    app.term_scroll = Some(0);
    app.handle_internal_event(AppEvent::TerminalLine("three".to_string()));
    assert_eq!(app.term_scroll, Some(0));
    assert_eq!(app.terminal_lines.len(), 4);
    app.term_scroll = Some(3);
    app.handle_internal_event(AppEvent::TerminalLine("four".to_string()));
    assert_eq!(app.term_scroll, Some(4));
}

#[test]
fn finish_and_error_end_processing_and_save() {
    let mut app = app();
    app.is_processing = true;
    let commands = app.handle_internal_event(AppEvent::AgentFinished);
    assert!(!app.is_processing);
    assert_eq!(commands, vec![save_of(&app)]);
    app.is_processing = true;
    let commands = app.handle_internal_event(AppEvent::Error("boom".to_string()));
    assert!(!app.is_processing);
    assert_eq!(app.messages.last(), Some(&message(MessageRole::Error, "boom")));
    assert_eq!(commands, vec![save_of(&app)]);
}

#[test]
fn tab_switches_the_view() {
    let mut app = app();
    app.handle_key_event(Key::Tab);
    assert_eq!(app.mode, AppMode::Terminal);
    app.handle_key_event(Key::Tab);
    assert_eq!(app.mode, AppMode::Chat);
    assert_eq!(AppMode::Chat.toggled(), AppMode::Terminal);
}

#[test]
fn keys_edit_the_input_line() {
    let mut app = app();
    typed(&mut app, "héy");
    app.handle_key_event(Key::Enter { alt: true });
    typed(&mut app, "x");
    assert_eq!(app.input_buffer, "héy\nx");
    app.handle_key_event(Key::Backspace);
    app.handle_key_event(Key::Backspace);
    app.handle_key_event(Key::Backspace);
    assert_eq!(app.input_buffer, "hé");
    app.handle_key_event(Key::Backspace);
    app.handle_key_event(Key::Backspace);
    app.handle_key_event(Key::Backspace);
    assert_eq!(app.input_buffer, "");
    assert_eq!(app.handle_key_event(Key::Other), vec![]);
}

#[test]
fn input_is_locked_while_the_agent_runs() {
    let mut app = app();
    typed(&mut app, "ab");
    app.is_processing = true;
    app.handle_key_event(Key::Char('c'));
    app.handle_key_event(Key::Backspace);
    assert_eq!(app.handle_key_event(Key::Enter { alt: false }), vec![]);
    app.handle_key_event(Key::Enter { alt: true });
    assert_eq!(app.input_buffer, "ab");
}

#[test]
fn escape_aborts_only_a_running_agent() {
    let mut app = app();
    assert_eq!(app.handle_key_event(Key::Esc), vec![]);
    app.is_processing = true;
    let commands = app.handle_key_event(Key::Esc);
    assert!(!app.is_processing);
    assert_eq!(
        app.messages.last(),
        Some(&message(MessageRole::System, "\u{1F6D1} Cancelled by user."))
    );
    assert_eq!(commands, vec![AppCommand::AbortAgent, save_of(&app)]);
}

#[test]
fn chat_scroll_saturates() {
    let mut app = app();
    app.handle_key_event(Key::Up);
    assert_eq!(app.chat_scroll, 0);
    assert!(!app.chat_stick_to_bottom);
    app.handle_key_event(Key::Down);
    app.handle_key_event(Key::PageDown);
    assert_eq!(app.chat_scroll, 11);
    app.handle_key_event(Key::PageUp);
    assert_eq!(app.chat_scroll, 1);
    app.handle_key_event(Key::PageUp);
    assert_eq!(app.chat_scroll, 0);
    app.chat_scroll = u16::MAX - 3;
    app.handle_mouse_event(Wheel::Down);
    app.handle_key_event(Key::PageDown);
    assert_eq!(app.chat_scroll, u16::MAX);
    app.scroll_page(i16::MIN);
    assert_eq!(app.chat_scroll, u16::MAX - 32768);
}

#[test]
fn terminal_scroll_moves_the_selection() {
    let mut app = app();
    app.mode = AppMode::Terminal;
    app.handle_mouse_event(Wheel::Up);
    assert_eq!(app.term_scroll, Some(0));
    app.handle_mouse_event(Wheel::Down);
    app.handle_mouse_event(Wheel::Down);
    assert_eq!(app.term_scroll, Some(2));
    app.handle_key_event(Key::PageDown);
    assert_eq!(app.term_scroll, Some(12));
    app.handle_key_event(Key::PageUp);
    app.handle_key_event(Key::PageUp);
    assert_eq!(app.term_scroll, Some(0));
    app.handle_mouse_event(Wheel::Other);
    assert_eq!(app.term_scroll, Some(0));
    assert!(app.chat_stick_to_bottom);
}

#[test]
fn blank_input_is_not_submitted() {
    let mut app = app();
    typed(&mut app, "  \t");
    assert_eq!(app.handle_key_event(Key::Enter { alt: false }), vec![]);
    assert_eq!(app.input_buffer, "  \t");
    assert_eq!(app.messages.len(), 1);
}

#[test]
fn chat_message_starts_the_agent() {
    let mut app = app();
    typed(&mut app, "fix the bug");
    let commands = app.handle_key_event(Key::Enter { alt: false });
    assert_eq!(app.input_buffer, "");
    assert!(app.is_processing);
    assert_eq!(app.messages.last(), Some(&message(MessageRole::User, "fix the bug")));
    assert_eq!(commands, vec![save_of(&app), AppCommand::StartAgent(app.messages.clone())]);
}

#[test]
fn terminal_input_goes_to_the_shell() {
    let mut app = app();
    app.mode = AppMode::Terminal;
    typed(&mut app, "ls -la");
    let commands = app.submit_message();
    assert_eq!(commands, vec![AppCommand::SendToShell("ls -la".to_string())]);
    assert!(!app.is_processing);
    assert_eq!(app.messages.len(), 1);
}

#[test]
fn slash_commands() {
    let mut app = app();
    typed(&mut app, "/new  project x");
    assert_eq!(app.submit_message(), vec![AppCommand::NewSession(Some("project".to_string()))]);
    typed(&mut app, "/new");
    assert_eq!(app.submit_message(), vec![AppCommand::NewSession(None)]);
    typed(&mut app, "/load old");
    assert_eq!(app.submit_message(), vec![AppCommand::LoadSession("old".to_string())]);
    typed(&mut app, "/list");
    assert_eq!(app.submit_message(), vec![AppCommand::ListSessions]);
    assert_eq!(app.messages.len(), 1);
    typed(&mut app, "/load");
    assert_eq!(app.submit_message(), vec![]);
    assert_eq!(
        app.messages.last(),
        Some(&message(MessageRole::Error, "Usage: /load <session_name>"))
    );
}

#[test]
fn save_command_saves_and_says_so() {
    let mut app = app();
    let before = save_of(&app);
    typed(&mut app, "/save");
    assert_eq!(app.submit_message(), vec![before]);
    assert_eq!(app.messages.last(), Some(&message(MessageRole::System, "Saved 'chat_1'")));
}

#[test]
fn reset_clears_the_conversation() {
    let mut app = app();
    app.add_system_message("old".to_string(), MessageRole::User);
    typed(&mut app, "/reset");
    assert_eq!(app.submit_message(), vec![]);
    assert_eq!(app.messages, vec![message(MessageRole::System, "Context reset.")]);
}

#[test]
fn unknown_slash_word_is_an_ordinary_message() {
    let mut app = app();
    typed(&mut app, "/help me");
    let commands = app.submit_message();
    assert_eq!(app.messages.last(), Some(&message(MessageRole::User, "/help me")));
    assert_eq!(commands.len(), 2);
    let mut second = App::new("qwen", "chat_1".to_string());
    typed(&mut second, " /new");
    second.submit_message();
    assert_eq!(second.messages.last(), Some(&message(MessageRole::User, " /new")));
}

#[test]
fn sessions_begin_load_and_list() {
    let mut app = app();
    let commands = app.start_new_session("fresh".to_string());
    assert_eq!(app.current_session, "fresh");
    assert_eq!(app.messages, vec![message(MessageRole::System, "New Session: fresh")]);
    assert_eq!(commands, vec![save_of(&app)]);
    app.chat_stick_to_bottom = false;
    app.load_session_by_name("old".to_string(), vec![message(MessageRole::User, "hi")]);
    assert_eq!(app.current_session, "old");
    assert!(app.chat_stick_to_bottom);
    assert_eq!(
        app.messages,
        vec![
            message(MessageRole::User, "hi"),
            message(MessageRole::System, "Session 'old' loaded."),
        ]
    );
    app.sessions_listed(&vec!["a".to_string(), "b".to_string()]);
    assert_eq!(
        app.messages.last(),
        Some(&message(MessageRole::System, "Available Sessions:\n- a\n- b"))
    );
    app.load_failed("missing");
    assert_eq!(app.messages.last(), Some(&message(MessageRole::Error, "Failed to load: missing")));
    app.list_failed("denied");
    assert_eq!(app.messages.last(), Some(&message(MessageRole::Error, "List failed: denied")));
    app.save_failed("disk full");
    assert_eq!(
        app.messages.last(),
        Some(&message(MessageRole::Error, "Auto-save failed: disk full"))
    );
    assert_eq!(copy_messages(&app.messages), app.messages);
    assert_eq!(app.save_current_session(), save_of(&app));
}
