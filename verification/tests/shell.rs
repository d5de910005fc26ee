use agerus::shell::{
    frame_command, ShellAction, ShellEvent, ShellPhase, ShellRequest, ShellSession, SENTINEL,
};

fn started() -> ShellSession {
    let mut session = ShellSession::new(SENTINEL.to_string());
    assert_eq!(session.phase(), ShellPhase::Starting);
    assert_eq!(session.step(ShellEvent::Started), vec![]);
    assert_eq!(session.phase(), ShellPhase::Idle);
    session
}

fn run(cmd: &str, responder: u64) -> ShellEvent {
    ShellEvent::Request(ShellRequest::RunCommand { cmd: cmd.to_string(), responder })
}

fn line(text: &str) -> ShellEvent {
    ShellEvent::Line(text.to_string())
}

fn write(cmd: &str) -> ShellAction {
    ShellAction::Write(format!("{{ {}; }} 2>&1; echo {}\n", cmd, SENTINEL))
}

#[test]
fn usual_sentinel() {
    assert_eq!(SENTINEL, "__END_OF_CMD__");
    let mut session = ShellSession::with_usual_sentinel();
    session.step(ShellEvent::Started);
    assert_eq!(session.step(run("ls", 1)), vec![write("ls")]);
}

#[test]
fn command_is_framed_with_the_sentinel() {
    assert_eq!(frame_command("ls -la", SENTINEL), "{ ls -la; } 2>&1; echo __END_OF_CMD__\n");
}

#[test]
fn capture_request_binds_its_responder() {
    let mut session = started();
    assert!(session.accepts_requests());
    assert_eq!(session.step(run("ls", 7)), vec![write("ls")]);
    assert_eq!(session.phase(), ShellPhase::Busy(Some(7)));
    assert!(!session.accepts_requests());
    assert_eq!(
        session.step(line("file.txt  \n")),
        vec![
            ShellAction::Broadcast("file.txt".to_string()),
            ShellAction::Deliver { responder: 7, line: "file.txt".to_string() },
        ]
    );
    assert_eq!(session.phase(), ShellPhase::Busy(Some(7)));
    assert_eq!(session.step(line("__END_OF_CMD__\n")), vec![ShellAction::Close(7)]);
    assert_eq!(session.phase(), ShellPhase::Idle);
}

#[test]
fn user_input_binds_no_responder() {
    let mut session = started();
    let typed = ShellEvent::Request(ShellRequest::UserInput("pwd".to_string()));
    assert_eq!(session.step(typed), vec![write("pwd")]);
    assert_eq!(session.phase(), ShellPhase::Busy(None));
    assert_eq!(
        session.step(line("/workspace\n")),
        vec![ShellAction::Broadcast("/workspace".to_string())]
    );
    assert_eq!(session.step(line(SENTINEL)), vec![]);
    assert_eq!(session.phase(), ShellPhase::Idle);
}

#[test]
fn silent_command_still_closes_its_responder() {
    let mut session = started();
    let actions = session.run_actor(vec![run("true", 3), line("__END_OF_CMD__\n")]);
    assert_eq!(actions, vec![write("true"), ShellAction::Close(3)]);
    assert_eq!(session.phase(), ShellPhase::Idle);
}

#[test]
fn second_request_waits_for_the_first_sentinel() {
    let mut session = started();
    let actions = session.run_actor(vec![
        run("first", 1),
        run("second", 2),
        line("one\n"),
        line("two\n"),
    ]);
    assert_eq!(
        actions,
        vec![
            write("first"),
            ShellAction::Broadcast("one".to_string()),
            ShellAction::Deliver { responder: 1, line: "one".to_string() },
            ShellAction::Broadcast("two".to_string()),
            ShellAction::Deliver { responder: 1, line: "two".to_string() },
        ]
    );
    assert_eq!(session.phase(), ShellPhase::Busy(Some(1)));
    assert_eq!(session.waiting(), 1);
    assert_eq!(session.step(line(SENTINEL)), vec![ShellAction::Close(1), write("second")]);
    assert_eq!(session.phase(), ShellPhase::Busy(Some(2)));
    assert_eq!(session.waiting(), 0);
    assert_eq!(
        session.step(line("three")),
        vec![
            ShellAction::Broadcast("three".to_string()),
            ShellAction::Deliver { responder: 2, line: "three".to_string() },
        ]
    );
    assert_eq!(session.step(line(SENTINEL)), vec![ShellAction::Close(2)]);
    assert_eq!(session.phase(), ShellPhase::Idle);
}

#[test]
fn requests_queue_in_order_of_arrival() {
    let mut session = started();
    session.run_actor(vec![run("a", 1), run("b", 2), run("c", 3)]);
    assert_eq!(session.waiting(), 2);
    assert_eq!(session.step(line(SENTINEL)), vec![ShellAction::Close(1), write("b")]);
    assert_eq!(session.step(line(SENTINEL)), vec![ShellAction::Close(2), write("c")]);
    assert_eq!(session.step(line(SENTINEL)), vec![ShellAction::Close(3)]);
    assert!(session.accepts_requests());
}

#[test]
fn request_before_start_waits_for_the_shell() {
    let mut session = ShellSession::new(SENTINEL.to_string());
    assert_eq!(session.step(run("early", 9)), vec![]);
    assert_eq!(session.step(ShellEvent::Started), vec![write("early")]);
    assert_eq!(session.phase(), ShellPhase::Busy(Some(9)));
}

#[test]
fn spawn_failure_closes_the_session() {
    let mut session = ShellSession::new(SENTINEL.to_string());
    session.step(run("early", 9));
    assert_eq!(
        session.step(ShellEvent::SpawnFailed("no docker".to_string())),
        vec![
            ShellAction::Report("Failed to start shell: no docker".to_string()),
            ShellAction::Close(9),
            ShellAction::Exit,
        ]
    );
    assert_eq!(session.phase(), ShellPhase::Closed);
}

#[test]
fn end_of_output_closes_every_responder() {
    let mut session = started();
    session.run_actor(vec![
        run("a", 1),
        ShellEvent::Request(ShellRequest::UserInput("b".to_string())),
        run("c", 3),
    ]);
    assert_eq!(
        session.step(ShellEvent::Eof),
        vec![ShellAction::Close(1), ShellAction::Close(3), ShellAction::Exit]
    );
    assert_eq!(session.phase(), ShellPhase::Closed);
    assert_eq!(session.waiting(), 0);
    assert_eq!(session.step(run("late", 4)), vec![ShellAction::Close(4)]);
    assert_eq!(session.step(line("ignored")), vec![]);
    assert_eq!(session.step(ShellEvent::Eof), vec![]);
}

#[test]
fn output_outside_a_command_is_only_broadcast() {
    let mut session = started();
    assert_eq!(session.step(line("motd\n")), vec![ShellAction::Broadcast("motd".to_string())]);
    assert_eq!(session.step(line(SENTINEL)), vec![]);
    assert_eq!(session.phase(), ShellPhase::Idle);
}

#[test]
fn write_failure_is_reported() {
    let mut session = started();
    session.step(run("a", 1));
    assert_eq!(
        session.step(ShellEvent::WriteFailed("broken pipe".to_string())),
        vec![ShellAction::Report("Stdin error: broken pipe".to_string())]
    );
    assert_eq!(session.phase(), ShellPhase::Busy(Some(1)));
}

#[test]
fn output_that_repeats_the_sentinel_ends_the_capture_early() {
    let mut session = started();
    session.step(run("echo __END_OF_CMD__; echo more", 1));
    assert_eq!(session.step(line("__END_OF_CMD__")), vec![ShellAction::Close(1)]);
    assert_eq!(session.step(line("more")), vec![ShellAction::Broadcast("more".to_string())]);
}

#[test]
fn abandoned_responder_is_unbound_and_the_command_runs_on() {
    let mut session = started();
    session.step(run("long", 1));
    assert_eq!(session.step(ShellEvent::ResponderDropped(2)), vec![]);
    assert_eq!(session.phase(), ShellPhase::Busy(Some(1)));
    assert_eq!(session.step(ShellEvent::ResponderDropped(1)), vec![]);
    assert_eq!(session.phase(), ShellPhase::Busy(None));
    assert_eq!(session.step(line("out")), vec![ShellAction::Broadcast("out".to_string())]);
    assert_eq!(session.step(line(SENTINEL)), vec![]);
    assert_eq!(session.phase(), ShellPhase::Idle);
    assert_eq!(session.step(ShellEvent::ResponderDropped(1)), vec![]);
}

#[test]
fn request_accessors() {
    let request = ShellRequest::RunCommand { cmd: "ls".to_string(), responder: 5 };
    assert_eq!(request.responder(), Some(5));
    assert_eq!(request.command(), "ls");
    let typed = ShellRequest::UserInput("pwd".to_string());
    assert_eq!(typed.responder(), None);
    assert_eq!(typed.command(), "pwd");
}
