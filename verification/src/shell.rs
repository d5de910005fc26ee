//! The persistent shell session as a state machine. One command is in flight
//! at a time; its end is recognised by a sentinel line echoed after it. The
//! driver owns the process and its pipes: it hands every event to `step` and
//! carries out the actions that come back. A responder that nobody listens to
//! any more is unbound: its command runs on, and its output is only shown.

use vstd::prelude::*;
use vstd::string::*;
use crate::text::{contains, contains_text, trim_end, trim_end_string};

verus! {

/// The usual sentinel: a marker that ordinary output is unlikely to hold.
pub const SENTINEL: &'static str = "__END_OF_CMD__";

/// A command for the shell.
#[derive(Clone, Debug, PartialEq, Eq)]
pub enum ShellRequest {
    /// Run `cmd` and send its output lines to the responder `responder`,
    /// which is closed when the command has ended.
    RunCommand { cmd: String, responder: u64 },
    /// Text typed by the user: run it, with no responder bound.
    UserInput(String),
}

/// Something that happened to the session.
#[derive(Clone, Debug, PartialEq, Eq)]
pub enum ShellEvent {
    /// The shell process is up.
    Started,
    /// The shell process could not be started.
    SpawnFailed(String),
    /// A request arrived.
    Request(ShellRequest),
    /// The shell printed one line.
    Line(String),
    /// Writing to the shell's input failed.
    WriteFailed(String),
    /// Nobody listens to this responder any more.
    ResponderDropped(u64),
    /// The shell's output ended.
    Eof,
}

/// Something the driver must do.
#[derive(Clone, Debug, PartialEq, Eq)]
pub enum ShellAction {
    /// Write this text to the shell's input.
    Write(String),
    /// Show this line to every observer.
    Broadcast(String),
    /// Send this line to a responder.
    Deliver { responder: u64, line: String },
    /// Close a responder: its command has ended.
    Close(u64),
    /// Report an error.
    Report(String),
    /// Stop: the session is over.
    Exit,
}

/// Where the session stands.
#[derive(Clone, Copy, Debug, PartialEq, Eq, Structural)]
pub enum ShellPhase {
    Starting,
    Idle,
    /// A command is in flight, with the responder bound to it, if any.
    Busy(Option<u64>),
    Closed,
}

pub enum RequestView {
    RunCommand { cmd: Seq<char>, responder: u64 },
    UserInput(Seq<char>),
}

pub enum EventView {
    Started,
    SpawnFailed(Seq<char>),
    Request(RequestView),
    Line(Seq<char>),
    WriteFailed(Seq<char>),
    ResponderDropped(u64),
    Eof,
}

pub enum ActionView {
    Write(Seq<char>),
    Broadcast(Seq<char>),
    Deliver { responder: u64, line: Seq<char> },
    Close(u64),
    Report(Seq<char>),
    Exit,
}

impl View for ShellRequest {
    type V = RequestView;

    open spec fn view(&self) -> RequestView {
        match self {
            ShellRequest::RunCommand { cmd, responder } => RequestView::RunCommand {
                cmd: cmd@,
                responder: *responder,
            },
            ShellRequest::UserInput(text) => RequestView::UserInput(text@),
        }
    }
}

impl View for ShellEvent {
    type V = EventView;

    open spec fn view(&self) -> EventView {
        match self {
            ShellEvent::Started => EventView::Started,
            ShellEvent::SpawnFailed(e) => EventView::SpawnFailed(e@),
            ShellEvent::Request(r) => EventView::Request(r@),
            ShellEvent::Line(l) => EventView::Line(l@),
            ShellEvent::WriteFailed(e) => EventView::WriteFailed(e@),
            ShellEvent::ResponderDropped(r) => EventView::ResponderDropped(*r),
            ShellEvent::Eof => EventView::Eof,
        }
    }
}

impl View for ShellAction {
    type V = ActionView;

    open spec fn view(&self) -> ActionView {
        match self {
            ShellAction::Write(t) => ActionView::Write(t@),
            ShellAction::Broadcast(l) => ActionView::Broadcast(l@),
            ShellAction::Deliver { responder, line } => ActionView::Deliver {
                responder: *responder,
                line: line@,
            },
            ShellAction::Close(r) => ActionView::Close(*r),
            ShellAction::Report(e) => ActionView::Report(e@),
            ShellAction::Exit => ActionView::Exit,
        }
    }
}

impl RequestView {
    /// The command text of the request.
    pub open spec fn command(self) -> Seq<char> {
        match self {
            RequestView::RunCommand { cmd, .. } => cmd,
            RequestView::UserInput(text) => text,
        }
    }

    /// The responder of the request, if it has one.
    pub open spec fn responder(self) -> Option<u64> {
        match self {
            RequestView::RunCommand { responder, .. } => Some(responder),
            RequestView::UserInput(_) => None,
        }
    }
}

/// The views of a list of requests.
pub open spec fn requests_view(requests: Seq<ShellRequest>) -> Seq<RequestView> {
    requests.map_values(|r: ShellRequest| r@)
}

/// The views of a list of actions.
pub open spec fn actions_view(actions: Seq<ShellAction>) -> Seq<ActionView> {
    actions.map_values(|a: ShellAction| a@)
}

/// What is written to the shell for `cmd`: the command with its error output
/// merged into its output, then an echo of the sentinel.
pub open spec fn frame(cmd: Seq<char>, sentinel: Seq<char>) -> Seq<char> {
    "{ "@ + cmd + "; } 2>&1; echo "@ + sentinel + "\n"@
}

/// Closing the responder, if there is one.
pub open spec fn close_bound(responder: Option<u64>) -> Seq<ActionView> {
    match responder {
        Some(r) => seq![ActionView::Close(r)],
        None => Seq::empty(),
    }
}

/// Closing the responders of all the requests of a queue, in order.
pub open spec fn close_all(queue: Seq<RequestView>) -> Seq<ActionView>
    decreases queue.len(),
{
    if queue.len() == 0 {
        Seq::empty()
    } else {
        close_all(queue.drop_last()) + close_bound(queue.last().responder())
    }
}

/// Forwarding a line of output: to every observer, and to the bound
/// responder if there is one.
pub open spec fn forward(responder: Option<u64>, line: Seq<char>) -> Seq<ActionView> {
    match responder {
        Some(r) => seq![ActionView::Broadcast(line), ActionView::Deliver { responder: r, line }],
        None => seq![ActionView::Broadcast(line)],
    }
}

/// Abstract state of a session.
pub struct SessionView {
    pub phase: ShellPhase,
    pub sentinel: Seq<char>,
    /// Requests that wait for the command in flight to end, oldest first.
    pub queue: Seq<RequestView>,
}

impl SessionView {
    /// Requests wait only while the session is starting or busy.
    pub open spec fn wf(self) -> bool {
        (self.phase is Idle || self.phase is Closed) ==> self.queue.len() == 0
    }

    /// The session with no command in flight takes up the oldest waiting
    /// request, if any.
    pub open spec fn start_next(self) -> (SessionView, Seq<ActionView>) {
        if self.queue.len() > 0 {
            let next = self.queue[0];
            (
                SessionView {
                    phase: ShellPhase::Busy(next.responder()),
                    sentinel: self.sentinel,
                    queue: self.queue.drop_first(),
                },
                seq![ActionView::Write(frame(next.command(), self.sentinel))],
            )
        } else {
            (
                SessionView { phase: ShellPhase::Idle, sentinel: self.sentinel, queue: self.queue },
                Seq::empty(),
            )
        }
    }

    /// The session closed, with every responder it knows of closed too.
    pub open spec fn shut_down(self, first: Seq<ActionView>) -> (SessionView, Seq<ActionView>) {
        let bound = match self.phase {
            ShellPhase::Busy(r) => close_bound(r),
            _ => Seq::empty(),
        };
        (
            SessionView { phase: ShellPhase::Closed, sentinel: self.sentinel, queue: Seq::empty() },
            first + bound + close_all(self.queue) + seq![ActionView::Exit],
        )
    }

    /// The transition function: next state and actions for one event.
    pub open spec fn step(self, event: EventView) -> (SessionView, Seq<ActionView>) {
        match (self.phase, event) {
            (ShellPhase::Closed, EventView::Request(req)) => (self, close_bound(req.responder())),
            (ShellPhase::Closed, _) => (self, Seq::empty()),
            (_, EventView::Eof) => self.shut_down(Seq::empty()),
            (ShellPhase::Starting, EventView::Started) => self.start_next(),
            (ShellPhase::Starting, EventView::SpawnFailed(e)) => self.shut_down(
                seq![ActionView::Report("Failed to start shell: "@ + e)],
            ),
            (_, EventView::Started) => (self, Seq::empty()),
            (_, EventView::SpawnFailed(_)) => (self, Seq::empty()),
            (ShellPhase::Idle, EventView::Request(req)) => (SessionView {
                phase: self.phase,
                sentinel: self.sentinel,
                queue: self.queue.push(req),
            }).start_next(),
            (_, EventView::Request(req)) => (
                SessionView {
                    phase: self.phase,
                    sentinel: self.sentinel,
                    queue: self.queue.push(req),
                },
                Seq::empty(),
            ),
            (_, EventView::WriteFailed(e)) => (
                self,
                seq![ActionView::Report("Stdin error: "@ + e)],
            ),
            (ShellPhase::Busy(bound), EventView::ResponderDropped(r)) => if bound == Some(r) {
                (
                    SessionView {
                        phase: ShellPhase::Busy(None),
                        sentinel: self.sentinel,
                        queue: self.queue,
                    },
                    Seq::empty(),
                )
            } else {
                (self, Seq::empty())
            },
            (_, EventView::ResponderDropped(_)) => (self, Seq::empty()),
            (ShellPhase::Busy(r), EventView::Line(line)) => if contains(line, self.sentinel) {
                let next = self.start_next();
                (next.0, close_bound(r) + next.1)
            } else {
                (self, forward(r, trim_end(line)))
            },
            (_, EventView::Line(line)) => if contains(line, self.sentinel) {
                (self, Seq::empty())
            } else {
                (self, forward(None, trim_end(line)))
            },
        }
    }

    /// State after a list of events, and all the actions on the way.
    pub open spec fn run(self, events: Seq<EventView>) -> (SessionView, Seq<ActionView>)
        decreases events.len(),
    {
        if events.len() == 0 {
            (self, Seq::empty())
        } else {
            let before = self.run(events.drop_last());
            let last = before.0.step(events.last());
            (last.0, before.1 + last.1)
        }
    }
}

/// The text written to the shell to run `cmd` and mark its end.
pub fn frame_command(cmd: &str, sentinel: &str) -> (text: String)
    ensures
        text@ == frame(cmd@, sentinel@),
{
    let mut text = String::from_str("{ ");
    text.append(cmd);
    text.append("; } 2>&1; echo ");
    text.append(sentinel);
    text.append("\n");
    text
}

/// The persistent shell session: its phase, its sentinel, and the requests
/// that wait their turn.
pub struct ShellSession {
    phase: ShellPhase,
    sentinel: String,
    queue: Vec<ShellRequest>,
}

impl View for ShellSession {
    type V = SessionView;

    closed spec fn view(&self) -> SessionView {
        SessionView {
            phase: self.phase,
            sentinel: self.sentinel@,
            queue: requests_view(self.queue@),
        }
    }
}

impl ShellRequest {
    /// The responder of the request, if it has one.
    pub fn responder(&self) -> (responder: Option<u64>)
        ensures
            responder == self@.responder(),
    {
        match self {
            ShellRequest::RunCommand { responder, .. } => Some(*responder),
            ShellRequest::UserInput(_) => None,
        }
    }

    /// The command text of the request.
    pub fn command(&self) -> (cmd: &String)
        ensures
            cmd@ == self@.command(),
    {
        match self {
            ShellRequest::RunCommand { cmd, .. } => cmd,
            ShellRequest::UserInput(text) => text,
        }
    }
}

/// Appends the closing of `responder`, if there is one.
fn push_close(actions: &mut Vec<ShellAction>, responder: Option<u64>)
    ensures
        actions_view(final(actions)@) == actions_view(old(actions)@) + close_bound(responder),
{
    match responder {
        Some(r) => {
            actions.push(ShellAction::Close(r));
            assert(actions_view(actions@) =~= actions_view(old(actions)@) + close_bound(
                responder,
            ));
        },
        None => {
            assert(actions_view(actions@) =~= actions_view(old(actions)@) + close_bound(
                responder,
            ));
        },
    }
}

/// Appends the forwarding of `line`.
fn push_forward(actions: &mut Vec<ShellAction>, responder: Option<u64>, line: String)
    ensures
        actions_view(final(actions)@) == actions_view(old(actions)@) + forward(responder, line@),
{
    match responder {
        Some(r) => {
            let copy = line.clone();
            actions.push(ShellAction::Broadcast(copy));
            actions.push(ShellAction::Deliver { responder: r, line });
        },
        None => {
            actions.push(ShellAction::Broadcast(line));
        },
    }
    assert(actions_view(actions@) =~= actions_view(old(actions)@) + forward(responder, line@));
}

/// Appends the closing of every responder among `queue`.
fn push_close_all(actions: &mut Vec<ShellAction>, queue: &Vec<ShellRequest>)
    ensures
        actions_view(final(actions)@) == actions_view(old(actions)@) + close_all(
            requests_view(queue@),
        ),
{
    let mut i: usize = 0;
    assert(requests_view(queue@).take(0) =~= Seq::empty());
    assert(actions_view(actions@) =~= actions_view(old(actions)@) + close_all(
        requests_view(queue@).take(0),
    ));
    while i < queue.len()
        invariant
            i <= queue.len(),
            actions_view(actions@) == actions_view(old(actions)@) + close_all(
                requests_view(queue@).take(i as int),
            ),
        decreases queue.len() - i,
    {
        let ghost before = actions_view(actions@);
        push_close(actions, queue[i].responder());
        i += 1;
        proof {
            let all = requests_view(queue@);
            assert(all.take(i as int).drop_last() =~= all.take(i - 1));
            assert(all.take(i as int).last() == queue[i - 1]@);
            assert(actions_view(actions@) =~= actions_view(old(actions)@) + close_all(
                all.take(i as int),
            ));
        }
    }
    assert(requests_view(queue@).take(queue.len() as int) =~= requests_view(queue@));
}

impl ShellSession {
    /// A session that is starting, with `sentinel` as its end-of-command
    /// marker.
    pub fn new(sentinel: String) -> (session: ShellSession)
        ensures
            session@ == (SessionView {
                phase: ShellPhase::Starting,
                sentinel: sentinel@,
                queue: Seq::empty(),
            }),
            session@.wf(),
    {
        let session = ShellSession { phase: ShellPhase::Starting, sentinel, queue: Vec::new() };
        assert(requests_view(session.queue@) =~= Seq::empty());
        session
    }

    /// A session that is starting, with the usual sentinel.
    pub fn with_usual_sentinel() -> (session: ShellSession)
        ensures
            session@ == (SessionView {
                phase: ShellPhase::Starting,
                sentinel: SENTINEL@,
                queue: Seq::empty(),
            }),
            session@.wf(),
    {
        ShellSession::new(SENTINEL.to_owned())
    }

    /// Where the session stands.
    pub fn phase(&self) -> (phase: ShellPhase)
        ensures
            phase == self@.phase,
    {
        self.phase
    }

    /// Whether a request handed in now would start at once.
    pub fn accepts_requests(&self) -> (idle: bool)
        ensures
            idle == (self@.phase is Idle),
    {
        match self.phase {
            ShellPhase::Idle => true,
            _ => false,
        }
    }

    /// How many requests wait for their turn.
    pub fn waiting(&self) -> (n: usize)
        ensures
            n == self@.queue.len(),
    {
        self.queue.len()
    }

    /// With no command in flight, takes up the oldest waiting request.
    fn start_next(&mut self, actions: &mut Vec<ShellAction>)
        ensures
            final(self)@ == old(self)@.start_next().0,
            actions_view(final(actions)@) == actions_view(old(actions)@) + old(
                self,
            )@.start_next().1,
    {
        if self.queue.len() > 0 {
            let next = self.queue.remove(0);
            assert(requests_view(self.queue@) =~= old(self)@.queue.drop_first());
            assert(next@ == old(self)@.queue[0]);
            self.phase = ShellPhase::Busy(next.responder());
            let text = frame_command(next.command().as_str(), self.sentinel.as_str());
            actions.push(ShellAction::Write(text));
            assert(actions_view(actions@) =~= actions_view(old(actions)@) + old(
                self,
            )@.start_next().1);
        } else {
            self.phase = ShellPhase::Idle;
            assert(actions_view(actions@) =~= actions_view(old(actions)@) + old(
                self,
            )@.start_next().1);
        }
    }

    /// Closes the session and every responder it knows of.
    fn shut_down(&mut self, actions: &mut Vec<ShellAction>)
        ensures
            final(self)@ == old(self)@.shut_down(actions_view(old(actions)@)).0,
            actions_view(final(actions)@) == old(self)@.shut_down(actions_view(old(actions)@)).1,
    {
        match self.phase {
            ShellPhase::Busy(r) => {
                push_close(actions, r);
            },
            _ => {
                assert(actions_view(actions@) =~= actions_view(old(actions)@)
                    + Seq::<ActionView>::empty());
            },
        }
        push_close_all(actions, &self.queue);
        actions.push(ShellAction::Exit);
        assert(actions_view(actions@) =~= old(self)@.shut_down(actions_view(old(actions)@)).1);
        self.queue = Vec::new();
        self.phase = ShellPhase::Closed;
        assert(requests_view(self.queue@) =~= Seq::empty());
    }

    /// Takes one event and returns what the driver must do, in order.
    pub fn step(&mut self, event: ShellEvent) -> (actions: Vec<ShellAction>)
        ensures
            final(self)@ == old(self)@.step(event@).0,
            actions_view(actions@) == old(self)@.step(event@).1,
            old(self)@.wf() ==> final(self)@.wf(),
    {
        let mut actions: Vec<ShellAction> = Vec::new();
        assert(actions_view(actions@) =~= Seq::empty());
        match self.phase {
            ShellPhase::Closed => {
                match event {
                    ShellEvent::Request(req) => {
                        push_close(&mut actions, req.responder());
                        assert(actions_view(actions@) =~= close_bound(req@.responder()));
                    },
                    _ => {},
                }
                return actions;
            },
            _ => {},
        }
        match event {
            ShellEvent::Eof => {
                self.shut_down(&mut actions);
                assert(Seq::<ActionView>::empty() + Seq::<ActionView>::empty() =~= Seq::empty());
            },
            ShellEvent::Started => {
                match self.phase {
                    ShellPhase::Starting => {
                        self.start_next(&mut actions);
                        assert(actions_view(actions@) =~= old(self)@.start_next().1);
                    },
                    _ => {},
                }
            },
            ShellEvent::SpawnFailed(e) => {
                match self.phase {
                    ShellPhase::Starting => {
                        let mut text = String::from_str("Failed to start shell: ");
                        text.append(e.as_str());
                        actions.push(ShellAction::Report(text));
                        assert(actions_view(actions@) =~= seq![
                            ActionView::Report("Failed to start shell: "@ + e@),
                        ]);
                        self.shut_down(&mut actions);
                    },
                    _ => {},
                }
            },
            ShellEvent::Request(req) => {
                match self.phase {
                    ShellPhase::Idle => {
                        let ghost pushed = req@;
                        self.queue.push(req);
                        assert(requests_view(self.queue@) =~= old(self)@.queue.push(pushed));
                        let ghost mid = self@;
                        self.start_next(&mut actions);
                        assert(actions_view(actions@) =~= mid.start_next().1);
                    },
                    _ => {
                        let ghost pushed = req@;
                        self.queue.push(req);
                        assert(requests_view(self.queue@) =~= old(self)@.queue.push(pushed));
                    },
                }
            },
            ShellEvent::WriteFailed(e) => {
                let mut text = String::from_str("Stdin error: ");
                text.append(e.as_str());
                actions.push(ShellAction::Report(text));
                assert(actions_view(actions@) =~= seq![ActionView::Report("Stdin error: "@ + e@)]);
            },
            ShellEvent::ResponderDropped(r) => {
                match self.phase {
                    ShellPhase::Busy(Some(bound)) => {
                        if bound == r {
                            self.phase = ShellPhase::Busy(None);
                        }
                    },
                    _ => {},
                }
            },
            ShellEvent::Line(line) => {
                let ended = contains_text(line.as_str(), self.sentinel.as_str());
                match self.phase {
                    ShellPhase::Busy(r) => {
                        if ended {
                            push_close(&mut actions, r);
                            self.start_next(&mut actions);
                            assert(actions_view(actions@) =~= close_bound(r) + old(
                                self,
                            )@.start_next().1);
                        } else {
                            push_forward(&mut actions, r, trim_end_string(line.as_str()));
                            assert(actions_view(actions@) =~= forward(r, trim_end(line@)));
                        }
                    },
                    _ => {
                        if !ended {
                            push_forward(&mut actions, None, trim_end_string(line.as_str()));
                            assert(actions_view(actions@) =~= forward(None, trim_end(line@)));
                        }
                    },
                }
            },
        }
        actions
    }

    /// Takes a list of events in order and returns all the actions, in order.
    pub fn run_actor(&mut self, events: Vec<ShellEvent>) -> (actions: Vec<ShellAction>)
        ensures
            final(self)@ == old(self)@.run(events_view(events@)).0,
            actions_view(actions@) == old(self)@.run(events_view(events@)).1,
            old(self)@.wf() ==> final(self)@.wf(),
    {
        let mut actions: Vec<ShellAction> = Vec::new();
        let mut events = events;
        let ghost all = events_view(events@);
        let ghost total = events.len();
        let mut done: usize = 0;
        assert(all.take(0) =~= Seq::empty());
        assert(actions_view(actions@) =~= Seq::empty());
        while events.len() > 0
            invariant
                done + events.len() == total,
                total == all.len(),
                events_view(events@) == all.skip(done as int),
                self@ == old(self)@.run(all.take(done as int)).0,
                actions_view(actions@) == old(self)@.run(all.take(done as int)).1,
                old(self)@.wf() ==> self@.wf(),
            decreases events.len(),
        {
            let ghost before = actions_view(actions@);
            let ghost rest = events_view(events@);
            let event = events.remove(0);
            assert(events_view(events@) =~= rest.drop_first());
            assert(event@ == rest[0]);
            assert(rest[0] == all[done as int]);
            let mut produced = self.step(event);
            let ghost fresh = actions_view(produced@);
            actions.append(&mut produced);
            assert(actions_view(actions@) =~= before + fresh);
            done += 1;
            proof {
                assert(all.take(done as int).drop_last() =~= all.take(done - 1));
                assert(all.take(done as int).last() == all[done - 1]);
                assert(all.skip(done as int) =~= rest.drop_first());
            }
        }
        assert(all.take(done as int) =~= all);
        actions
    }
}

/// The views of a list of events.
pub open spec fn events_view(events: Seq<ShellEvent>) -> Seq<EventView> {
    events.map_values(|e: ShellEvent| e@)
}

} // verus!
