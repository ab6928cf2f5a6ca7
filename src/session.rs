use vstd::prelude::*;

use crate::render_loop::{is_quit, is_quit_event, InputEvent};

verus! {

/// A failure reported by the terminal: entering or leaving a mode, drawing,
/// or reading an event.
#[derive(Debug, PartialEq, Eq)]
pub struct TerminalError {
    pub message: String,
}

/// The next thing the caller does to the terminal.
#[derive(Clone, Copy, Debug, PartialEq, Eq, Structural)]
pub enum Step {
    /// Start: deliver keystrokes at once, without echo.
    EnableRawMode,
    /// Start: switch to the alternate screen buffer.
    EnterAlternateScreen,
    /// Loop: draw one frame.
    Draw,
    /// Loop: wait for the next input event.
    ReadEvent,
    /// Stop: restore canonical input.
    DisableRawMode,
    /// Stop: return to the primary screen.
    LeaveAlternateScreen,
    /// Stop: turn mouse reporting off.
    DisableMouseCapture,
    /// Stop: make the cursor visible.
    ShowCursor,
    /// Nothing is left to do; report the error, if any.
    Exit,
}

/// What came of a step.
#[derive(Debug, PartialEq, Eq)]
pub enum Outcome {
    Done,
    Event(InputEvent),
    Failed(TerminalError),
}

/// The program's progress: the step to perform next, and the first failure
/// of the run, which is the one reported at the end.
#[derive(Debug, PartialEq, Eq)]
pub struct Session {
    pub step: Step,
    pub error: Option<TerminalError>,
}

/// Steps that set the terminal up or draw on it; a failure in one of them
/// ends the run, after restoring the terminal.
pub open spec fn is_active(step: Step) -> bool {
    step == Step::EnableRawMode || step == Step::EnterAlternateScreen || step == Step::Draw
        || step == Step::ReadEvent
}

/// The steps that restore the terminal, in the order they are taken.
pub open spec fn restore_steps() -> Seq<Step> {
    seq![Step::DisableRawMode, Step::LeaveAlternateScreen, Step::DisableMouseCapture, Step::ShowCursor]
}

/// The step after `step` has come out as `o`. Every restoring step is taken
/// whatever came of the one before it.
pub open spec fn step_after(step: Step, o: Outcome) -> Step {
    match step {
        Step::EnableRawMode => if o is Failed {
            Step::DisableRawMode
        } else {
            Step::EnterAlternateScreen
        },
        Step::EnterAlternateScreen => if o is Failed {
            Step::DisableRawMode
        } else {
            Step::Draw
        },
        Step::Draw => if o is Failed {
            Step::DisableRawMode
        } else {
            Step::ReadEvent
        },
        Step::ReadEvent => match o {
            Outcome::Event(e) => if is_quit(e) {
                Step::DisableRawMode
            } else {
                Step::Draw
            },
            Outcome::Done => Step::Draw,
            Outcome::Failed(_) => Step::DisableRawMode,
        },
        Step::DisableRawMode => Step::LeaveAlternateScreen,
        Step::LeaveAlternateScreen => Step::DisableMouseCapture,
        Step::DisableMouseCapture => Step::ShowCursor,
        Step::ShowCursor => Step::Exit,
        Step::Exit => Step::Exit,
    }
}

/// The session after its step has come out as `o`: the first failure is
/// kept, and once it has exited nothing changes.
pub open spec fn after(s: Session, o: Outcome) -> Session {
    if s.step == Step::Exit {
        s
    } else {
        Session {
            step: step_after(s.step, o),
            error: if s.error is None && o is Failed {
                Some(o->Failed_0)
            } else {
                s.error
            },
        }
    }
}

/// The session after the outcomes `outcomes`, in order, starting from `s`.
pub open spec fn run(s: Session, outcomes: Seq<Outcome>) -> Session
    decreases outcomes.len(),
{
    if outcomes.len() == 0 {
        s
    } else {
        after(run(s, outcomes.drop_last()), outcomes.last())
    }
}

/// A session that has not begun.
pub open spec fn initial() -> Session {
    Session { step: Step::EnableRawMode, error: None }
}

impl Session {
    /// A session that has not begun: its first step enables raw mode.
    pub fn new() -> (r: Session)
        ensures
            r == initial(),
    {
        Session { step: Step::EnableRawMode, error: None }
    }

    /// Whether the run is over.
    pub fn is_finished(&self) -> (r: bool)
        ensures
            r == (self.step == Step::Exit),
    {
        self.step == Step::Exit
    }

    /// Records what came of the current step and moves to the next.
    pub fn advance(&mut self, outcome: Outcome)
        ensures
            *final(self) == after(*old(self), outcome),
    {
        if self.step == Step::Exit {
            return ;
        }
        let failed = match &outcome {
            Outcome::Failed(_) => true,
            _ => false,
        };
        let next = match self.step {
            Step::EnableRawMode | Step::EnterAlternateScreen | Step::Draw => {
                if failed {
                    Step::DisableRawMode
                } else {
                    match self.step {
                        Step::EnableRawMode => Step::EnterAlternateScreen,
                        Step::EnterAlternateScreen => Step::Draw,
                        _ => Step::ReadEvent,
                    }
                }
            },
            Step::ReadEvent => match &outcome {
                Outcome::Event(e) => if is_quit_event(e) {
                    Step::DisableRawMode
                } else {
                    Step::Draw
                },
                Outcome::Done => Step::Draw,
                Outcome::Failed(_) => Step::DisableRawMode,
            },
            Step::DisableRawMode => Step::LeaveAlternateScreen,
            Step::LeaveAlternateScreen => Step::DisableMouseCapture,
            Step::DisableMouseCapture => Step::ShowCursor,
            _ => Step::Exit,
        };
        self.step = next;
        if self.error.is_none() {
            if let Outcome::Failed(e) = outcome {
                self.error = Some(e);
            }
        }
    }
}

/// Feeding one more outcome is one more step.
pub proof fn lemma_run_push(s: Session, outcomes: Seq<Outcome>, o: Outcome)
    ensures
        run(s, outcomes.push(o)) == after(run(s, outcomes), o),
{
    assert(outcomes.push(o).drop_last() =~= outcomes);
}

/// Running on two sequences of outcomes in turn is running on the two joined.
pub proof fn lemma_run_append(s: Session, first: Seq<Outcome>, then: Seq<Outcome>)
    ensures
        run(s, first + then) == run(run(s, first), then),
    decreases then.len(),
{
    if then.len() == 0 {
        assert(first + then =~= first);
    } else {
        let front = then.drop_last();
        lemma_run_append(s, first, front);
        assert((first + then).drop_last() =~= first + front);
    }
}

/// Once a session has exited, no further outcome changes it: shutting down
/// a second time does nothing and reports nothing new.
pub proof fn lemma_exit_is_final(s: Session, outcomes: Seq<Outcome>)
    requires
        s.step == Step::Exit,
    ensures
        run(s, outcomes) == s,
    decreases outcomes.len(),
{
    if outcomes.len() > 0 {
        lemma_exit_is_final(s, outcomes.drop_last());
    }
}

/// A failure, once recorded, is the one reported: no later failure replaces it.
pub proof fn lemma_first_error_kept(s: Session, outcomes: Seq<Outcome>)
    requires
        s.error is Some,
    ensures
        run(s, outcomes).error == s.error,
    decreases outcomes.len(),
{
    if outcomes.len() > 0 {
        lemma_first_error_kept(s, outcomes.drop_last());
    }
}

/// From a restoring step, the remaining restoring steps are all taken, in
/// order, whatever comes of each; then the session exits.
pub proof fn lemma_restore_runs_through(s: Session, outcomes: Seq<Outcome>)
    requires
        s.step == Step::DisableRawMode,
        outcomes.len() == 4,
    ensures
        forall|k: int|
            0 <= k < 4 ==> #[trigger] run(s, outcomes.take(k)).step == restore_steps()[k],
        run(s, outcomes).step == Step::Exit,
{
    assert(outcomes.take(0) =~= Seq::<Outcome>::empty());
    assert forall|k: int| 0 <= k < 4 implies #[trigger] outcomes.take(k + 1) == outcomes.take(
        k,
    ).push(outcomes[k]) by {
        assert(outcomes.take(k + 1) =~= outcomes.take(k).push(outcomes[k]));
    }
    lemma_run_push(s, outcomes.take(0), outcomes[0]);
    lemma_run_push(s, outcomes.take(1), outcomes[1]);
    lemma_run_push(s, outcomes.take(2), outcomes[2]);
    lemma_run_push(s, outcomes.take(3), outcomes[3]);
    assert(outcomes.take(4) =~= outcomes);
}

/// Whenever the run leaves set-up and drawing, by a failure or by the quit
/// key, the terminal is restored: the four restoring steps follow in order,
/// whatever comes of each, and the session exits.
pub proof fn lemma_leaving_restores(s: Session, o: Outcome, rest: Seq<Outcome>)
    requires
        is_active(s.step),
        !is_active(step_after(s.step, o)),
        rest.len() == 4,
    ensures
        after(s, o).step == Step::DisableRawMode,
        forall|k: int|
            0 <= k < 4 ==> #[trigger] run(after(s, o), rest.take(k)).step == restore_steps()[k],
        run(s, seq![o] + rest).step == Step::Exit,
        run(s, seq![o] + rest).error == if s.error is Some {
            s.error
        } else if o is Failed {
            Some(o->Failed_0)
        } else {
            run(after(s, o), rest).error
        },
{
    lemma_restore_runs_through(after(s, o), rest);
    lemma_run_push(s, Seq::empty(), o);
    assert(Seq::<Outcome>::empty().push(o) =~= seq![o]);
    lemma_run_append(s, seq![o], rest);
    if s.error is Some {
        lemma_first_error_kept(after(s, o), rest);
    } else if o is Failed {
        lemma_first_error_kept(after(s, o), rest);
    }
}

/// When the terminal was set up and the first frame fails to draw, the
/// terminal is still restored, and that failure is the one reported.
pub proof fn lemma_first_frame_failure_restores(e: TerminalError, rest: Seq<Outcome>)
    requires
        rest.len() == 4,
    ensures
        run(initial(), seq![Outcome::Done, Outcome::Done]).step == Step::Draw,
        forall|k: int|
            0 <= k < 4 ==> run(
                initial(),
                seq![Outcome::Done, Outcome::Done, Outcome::Failed(e)] + #[trigger] rest.take(k),
            ).step == restore_steps()[k],
        run(initial(), seq![Outcome::Done, Outcome::Done, Outcome::Failed(e)] + rest)
            == (Session { step: Step::Exit, error: Some(e) }),
{
    let started = seq![Outcome::Done, Outcome::Done];
    let failing = seq![Outcome::Done, Outcome::Done, Outcome::Failed(e)];
    let empty = Seq::<Outcome>::empty();
    lemma_run_push(initial(), empty, Outcome::Done);
    assert(empty.push(Outcome::Done) =~= seq![Outcome::Done]);
    lemma_run_push(initial(), seq![Outcome::Done], Outcome::Done);
    assert(seq![Outcome::Done].push(Outcome::Done) =~= started);
    assert(failing.drop_last() =~= started);
    let s = run(initial(), started);
    assert(s.step == Step::Draw && s.error is None);
    let failed = run(initial(), failing);
    assert(failed == after(s, Outcome::Failed(e)));
    lemma_restore_runs_through(failed, rest);
    assert forall|k: int| 0 <= k < 4 implies run(
        initial(),
        failing + #[trigger] rest.take(k),
    ).step == restore_steps()[k] by {
        lemma_run_append(initial(), failing, rest.take(k));
    }
    lemma_run_append(initial(), failing, rest);
    lemma_first_error_kept(failed, rest);
}

/// Shutting down twice in a row: the first shutdown takes the session to its
/// exit, and the second changes nothing, so a failure of the first shutdown
/// is neither replaced nor repeated.
pub proof fn lemma_shutdown_once(s: Session, first: Seq<Outcome>, again: Seq<Outcome>)
    requires
        s.step == Step::DisableRawMode,
        first.len() == 4,
    ensures
        run(s, first).step == Step::Exit,
        run(s, first + again) == run(s, first),
        s.error is Some ==> run(s, first + again).error == s.error,
{
    lemma_restore_runs_through(s, first);
    lemma_run_append(s, first, again);
    lemma_exit_is_final(run(s, first), again);
    if s.error is Some {
        lemma_first_error_kept(s, first);
    }
}

/// What the terminal hands back over the render loop for the events
/// `events`: each frame is drawn, then the next event is read.
pub open spec fn loop_outcomes(events: Seq<InputEvent>) -> Seq<Outcome>
    decreases events.len(),
{
    if events.len() == 0 {
        Seq::empty()
    } else {
        loop_outcomes(events.drop_last()) + seq![Outcome::Done, Outcome::Event(events.last())]
    }
}

/// One frame drawn and one event read: the loop goes round again, unless
/// the event is the quit key, on which restoring begins.
pub proof fn lemma_one_cycle(s: Session, e: InputEvent)
    requires
        s.step == Step::Draw,
        s.error is None,
    ensures
        run(s, seq![Outcome::Done, Outcome::Event(e)]) == (Session {
            step: if is_quit(e) {
                Step::DisableRawMode
            } else {
                Step::Draw
            },
            error: None,
        }),
{
    let empty = Seq::<Outcome>::empty();
    lemma_run_push(s, empty, Outcome::Done);
    assert(empty.push(Outcome::Done) =~= seq![Outcome::Done]);
    lemma_run_push(s, seq![Outcome::Done], Outcome::Event(e));
    assert(seq![Outcome::Done].push(Outcome::Event(e)) =~= seq![
        Outcome::Done,
        Outcome::Event(e),
    ]);
}

/// Events other than the quit key only add rounds of drawing and reading:
/// after any number of them the session is where it began, about to draw,
/// with nothing to report.
pub proof fn lemma_non_quit_events_only_redraw(s: Session, events: Seq<InputEvent>)
    requires
        s.step == Step::Draw,
        s.error is None,
        forall|i: int| 0 <= i < events.len() ==> !is_quit(#[trigger] events[i]),
    ensures
        run(s, loop_outcomes(events)) == s,
    decreases events.len(),
{
    if events.len() > 0 {
        let front = events.drop_last();
        assert forall|i: int| 0 <= i < front.len() implies !is_quit(#[trigger] front[i]) by {
            assert(front[i] == events[i]);
        }
        lemma_non_quit_events_only_redraw(s, front);
        lemma_run_append(
            s,
            loop_outcomes(front),
            seq![Outcome::Done, Outcome::Event(events.last())],
        );
        assert(!is_quit(events[events.len() - 1]));
        lemma_one_cycle(s, events.last());
    }
}

/// Whatever events other than the quit key come first, the quit key ends the
/// loop the same way: restoring begins, with nothing to report.
pub proof fn lemma_quit_after_any_events(s: Session, events: Seq<InputEvent>, quit: InputEvent)
    requires
        s.step == Step::Draw,
        s.error is None,
        forall|i: int| 0 <= i < events.len() ==> !is_quit(#[trigger] events[i]),
        is_quit(quit),
    ensures
        run(s, loop_outcomes(events.push(quit))) == (Session {
            step: Step::DisableRawMode,
            error: None,
        }),
        loop_outcomes(events.push(quit)).len() == 2 * (events.len() + 1),
{
    lemma_non_quit_events_only_redraw(s, events);
    assert(events.push(quit).drop_last() =~= events);
    lemma_run_append(s, loop_outcomes(events), seq![Outcome::Done, Outcome::Event(quit)]);
    lemma_one_cycle(s, quit);
    lemma_loop_outcomes_len(events);
}

/// Each event costs one draw and one read.
pub proof fn lemma_loop_outcomes_len(events: Seq<InputEvent>)
    ensures
        loop_outcomes(events).len() == 2 * events.len(),
    decreases events.len(),
{
    if events.len() > 0 {
        lemma_loop_outcomes_len(events.drop_last());
    }
}

} // verus!
