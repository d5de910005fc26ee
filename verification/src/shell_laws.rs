//! Laws of the shell session: requests wait their turn, output reaches only
//! the responder of the command in flight, and every command's responder is
//! closed when its sentinel line appears.

use vstd::prelude::*;
use crate::shell::{
    close_all, close_bound, frame, ActionView, EventView, RequestView, SessionView, ShellPhase,
};
use crate::text::contains;

verus! {

/// The action speaks to the responder `r`: it delivers a line to it, or
/// closes it.
pub open spec fn addresses(action: ActionView, r: u64) -> bool {
    match action {
        ActionView::Deliver { responder, .. } => responder == r,
        ActionView::Close(responder) => responder == r,
        _ => false,
    }
}

/// The events of a list of output lines.
pub open spec fn line_events(lines: Seq<Seq<char>>) -> Seq<EventView> {
    lines.map_values(|l: Seq<char>| EventView::Line(l))
}

/// Every step keeps the session well-formed: requests wait only while the
/// session is starting or busy.
pub proof fn lemma_step_wf(session: SessionView, event: EventView)
    requires
        session.wf(),
    ensures
        session.step(event).0.wf(),
{
}

/// A line is delivered only to the responder bound to the command in flight.
pub proof fn lemma_delivery_to_bound(session: SessionView, event: EventView, k: int)
    requires
        0 <= k < session.step(event).1.len(),
        session.step(event).1[k] is Deliver,
    ensures
        session.phase == ShellPhase::Busy(Some(session.step(event).1[k]->Deliver_responder)),
{
    lemma_close_all_closes(session.queue);
    match session.phase {
        ShellPhase::Busy(r) => {
            lemma_close_all_closes(session.queue);
        },
        _ => {},
    }
}

/// Closing the responders of a queue does nothing but close.
proof fn lemma_close_all_closes(queue: Seq<RequestView>)
    ensures
        forall|k: int| 0 <= k < close_all(queue).len() ==> close_all(queue)[k] is Close,
    decreases queue.len(),
{
    if queue.len() > 0 {
        lemma_close_all_closes(queue.drop_last());
    }
}

/// While a command is in flight, its binding ends only with its sentinel
/// line, with the end of the shell's output, or when its listener is gone:
/// no other event changes the phase, and a request that arrives joins the
/// end of the queue.
pub proof fn lemma_binding_stable(session: SessionView, event: EventView)
    requires
        session.phase is Busy,
        !(event is Eof),
        !(event is ResponderDropped),
        !(event matches EventView::Line(line) && contains(line, session.sentinel)),
    ensures
        session.step(event).0.phase == session.phase,
        session.step(event).0.sentinel == session.sentinel,
        session.step(event).0.queue == match event {
            EventView::Request(req) => session.queue.push(req),
            _ => session.queue,
        },
{
}

/// A command whose listener is gone runs on without a responder: the phase
/// stays busy, nothing is queued or dropped, and from then on its output is
/// only shown.
pub proof fn lemma_abandoned_command_runs_on(session: SessionView, responder: u64)
    requires
        session.phase == ShellPhase::Busy(Some(responder)),
    ensures
        session.step(EventView::ResponderDropped(responder)).0.phase == ShellPhase::Busy(None),
        session.step(EventView::ResponderDropped(responder)).0.queue == session.queue,
        session.step(EventView::ResponderDropped(responder)).1 == Seq::<ActionView>::empty(),
{
}

/// The sentinel line ends the command in flight: its responder, if any, is
/// closed first, nothing is forwarded, and the oldest waiting request
/// starts.
pub proof fn lemma_sentinel_ends_command(session: SessionView, line: Seq<char>)
    requires
        session.phase is Busy,
        contains(line, session.sentinel),
    ensures
        session.step(EventView::Line(line)).1 == close_bound(session.phase->Busy_0)
            + session.start_next().1,
        session.step(EventView::Line(line)).0 == session.start_next().0,
        session.queue.len() == 0 ==> session.step(EventView::Line(line)).0.phase is Idle,
        session.queue.len() > 0 ==> session.step(EventView::Line(line)).0.phase
            == ShellPhase::Busy(session.queue[0].responder()),
{
}

/// Running `a + b` is running `a` and then `b`.
pub proof fn lemma_run_concat(session: SessionView, a: Seq<EventView>, b: Seq<EventView>)
    ensures
        session.run(a + b).0 == session.run(a).0.run(b).0,
        session.run(a + b).1 == session.run(a).1 + session.run(a).0.run(b).1,
    decreases b.len(),
{
    if b.len() == 0 {
        assert(a + b =~= a);
        assert(session.run(a).1 + Seq::<ActionView>::empty() =~= session.run(a).1);
    } else {
        lemma_run_concat(session, a, b.drop_last());
        assert((a + b).drop_last() =~= a + b.drop_last());
        assert((a + b).last() == b.last());
        let mid = session.run(a);
        let before = mid.0.run(b.drop_last());
        let last = before.0.step(b.last());
        assert(session.run(a + b).1 =~= mid.1 + (before.1 + last.1));
    }
}

/// Running a single event is one step.
pub proof fn lemma_run_one(session: SessionView, event: EventView)
    ensures
        session.run(seq![event]) == session.step(event),
{
    let events = seq![event];
    assert(events.drop_last() =~= Seq::<EventView>::empty());
    assert(session.run(Seq::<EventView>::empty()) == (session, Seq::<ActionView>::empty()));
    assert(events.last() == event);
    assert(Seq::<ActionView>::empty() + session.step(event).1 =~= session.step(event).1);
}

/// A command that prints nothing: the request is written to the shell, and
/// the sentinel line alone closes its responder and returns the session to
/// idle.
pub proof fn lemma_silent_command_closes(
    session: SessionView,
    cmd: Seq<char>,
    responder: u64,
    line: Seq<char>,
)
    requires
        session.wf(),
        session.phase is Idle,
        contains(line, session.sentinel),
    ensures
        session.run(
            seq![
                EventView::Request(RequestView::RunCommand { cmd, responder }),
                EventView::Line(line),
            ],
        ) == (
            session,
            seq![ActionView::Write(frame(cmd, session.sentinel)), ActionView::Close(responder)],
        ),
{
    let request = EventView::Request(RequestView::RunCommand { cmd, responder });
    let first = seq![request];
    let second = seq![EventView::Line(line)];
    assert(first + second =~= seq![request, EventView::Line(line)]);
    lemma_run_concat(session, first, second);
    lemma_run_one(session, request);
    let busy = session.step(request).0;
    lemma_run_one(busy, EventView::Line(line));
    assert(session.queue =~= Seq::empty());
    assert(session.queue.push(RequestView::RunCommand { cmd, responder }).drop_first()
        =~= Seq::empty());
    assert(busy.queue =~= Seq::empty());
    assert(busy.step(EventView::Line(line)).0 == session);
    assert(session.step(request).1 + busy.step(EventView::Line(line)).1 =~= seq![
        ActionView::Write(frame(cmd, session.sentinel)),
        ActionView::Close(responder),
    ]);
}

/// Output lines without the sentinel, while a command is in flight, leave
/// the session as it is and speak to no responder but the bound one.
pub proof fn lemma_output_stays_bound(session: SessionView, lines: Seq<Seq<char>>, other: u64)
    requires
        session.phase is Busy,
        session.phase != ShellPhase::Busy(Some(other)),
        forall|i: int| 0 <= i < lines.len() ==> !contains(#[trigger] lines[i], session.sentinel),
    ensures
        session.run(line_events(lines)).0 == session,
        forall|k: int|
            0 <= k < session.run(line_events(lines)).1.len() ==> !addresses(
                #[trigger] session.run(line_events(lines)).1[k],
                other,
            ),
    decreases lines.len(),
{
    let events = line_events(lines);
    if lines.len() > 0 {
        lemma_output_stays_bound(session, lines.drop_last(), other);
        assert(events.drop_last() =~= line_events(lines.drop_last()));
        assert(events.last() == EventView::Line(lines.last()));
        assert(!contains(lines[lines.len() - 1], session.sentinel));
    }
}

/// Two capture requests back to back: until the first command's sentinel
/// line is seen, the second request waits in the queue, and nothing is
/// delivered to its responder nor is its responder closed.
pub proof fn lemma_second_waits(
    session: SessionView,
    first_cmd: Seq<char>,
    first: u64,
    second_cmd: Seq<char>,
    second: u64,
    lines: Seq<Seq<char>>,
)
    requires
        session.wf(),
        session.phase is Idle,
        first != second,
        forall|i: int| 0 <= i < lines.len() ==> !contains(#[trigger] lines[i], session.sentinel),
    ensures
        ({
            let one = RequestView::RunCommand { cmd: first_cmd, responder: first };
            let two = RequestView::RunCommand { cmd: second_cmd, responder: second };
            let out = session.run(
                seq![EventView::Request(one), EventView::Request(two)] + line_events(lines),
            );
            &&& out.0.phase == ShellPhase::Busy(Some(first))
            &&& out.0.queue == seq![two]
            &&& forall|k: int| 0 <= k < out.1.len() ==> !addresses(#[trigger] out.1[k], second)
        }),
{
    let one = RequestView::RunCommand { cmd: first_cmd, responder: first };
    let two = RequestView::RunCommand { cmd: second_cmd, responder: second };
    let a = seq![EventView::Request(one)];
    let b = seq![EventView::Request(two)];
    assert(a + b =~= seq![EventView::Request(one), EventView::Request(two)]);
    lemma_run_concat(session, a, b);
    lemma_run_one(session, EventView::Request(one));
    let busy = session.step(EventView::Request(one)).0;
    assert(session.queue =~= Seq::empty());
    assert(session.queue.push(one).drop_first() =~= Seq::empty());
    assert(busy.queue =~= Seq::empty());
    lemma_run_one(busy, EventView::Request(two));
    let waiting = busy.step(EventView::Request(two)).0;
    assert(waiting.queue =~= seq![two]);
    lemma_run_concat(session, a + b, line_events(lines));
    lemma_output_stays_bound(waiting, lines, second);
}

} // verus!
