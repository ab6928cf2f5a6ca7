use vstd::prelude::*;

verus! {

/// Which key an event is about: a character key, or any other key.
#[derive(Clone, Copy, Debug, PartialEq, Eq, Structural)]
pub enum Key {
    Char(char),
    Other,
}

/// Whether a key went down, repeated while held, or went up.
#[derive(Clone, Copy, Debug, PartialEq, Eq, Structural)]
pub enum KeyAction {
    Press,
    Repeat,
    Release,
}

/// Modifier bits held with a key (shift, control, alt, ...); zero when none.
pub type Modifiers = u8;

/// One key event.
#[derive(Clone, Copy, Debug, PartialEq, Eq, Structural)]
pub struct KeyInput {
    pub key: Key,
    pub modifiers: Modifiers,
    pub action: KeyAction,
}

/// An input event read from the terminal.
#[derive(Clone, Copy, Debug, PartialEq, Eq, Structural)]
pub enum InputEvent {
    Key(KeyInput),
    Mouse,
    Resize { columns: u16, rows: u16 },
    FocusGained,
    FocusLost,
    Paste,
}

/// The state of the render loop.
#[derive(Clone, Copy, Debug, PartialEq, Eq, Structural)]
pub enum LoopState {
    Running,
    Stopped,
}

/// The quit key: a press of the character `q`, with no modifier held.
pub open spec fn is_quit(e: InputEvent) -> bool {
    e == InputEvent::Key(KeyInput { key: Key::Char('q'), modifiers: 0, action: KeyAction::Press })
}

/// The state after one event: the loop stops on the quit key and on nothing
/// else, and a stopped loop stays stopped.
pub open spec fn next_state(s: LoopState, e: InputEvent) -> LoopState {
    if s == LoopState::Stopped || is_quit(e) {
        LoopState::Stopped
    } else {
        LoopState::Running
    }
}

/// The state after the events `events`, in order, starting from `s`.
pub open spec fn state_after(s: LoopState, events: Seq<InputEvent>) -> LoopState
    decreases events.len(),
{
    if events.len() == 0 {
        s
    } else {
        next_state(state_after(s, events.drop_last()), events.last())
    }
}

/// Whether `e` is the quit key.
pub fn is_quit_event(e: &InputEvent) -> (r: bool)
    ensures
        r == is_quit(*e),
{
    match e {
        InputEvent::Key(k) => {
            match k.key {
                Key::Char(c) => c == 'q' && k.modifiers == 0 && k.action == KeyAction::Press,
                Key::Other => false,
            }
        },
        _ => false,
    }
}

impl LoopState {
    /// The state in which the loop begins.
    pub fn new() -> (r: LoopState)
        ensures
            r == LoopState::Running,
    {
        LoopState::Running
    }

    /// Whether the loop goes on drawing frames.
    pub fn is_running(&self) -> (r: bool)
        ensures
            r == (*self == LoopState::Running),
    {
        match self {
            LoopState::Running => true,
            LoopState::Stopped => false,
        }
    }

    /// The state after the event `e`.
    pub fn on_event(self, e: &InputEvent) -> (r: LoopState)
        ensures
            r == next_state(self, *e),
    {
        if self.is_running() && !is_quit_event(e) {
            LoopState::Running
        } else {
            LoopState::Stopped
        }
    }
}

/// A loop that reads no quit key never stops.
pub proof fn lemma_runs_without_quit(events: Seq<InputEvent>)
    requires
        forall|i: int| 0 <= i < events.len() ==> !is_quit(#[trigger] events[i]),
    ensures
        state_after(LoopState::Running, events) == LoopState::Running,
    decreases events.len(),
{
    if events.len() > 0 {
        let front = events.drop_last();
        assert forall|i: int| 0 <= i < front.len() implies !is_quit(#[trigger] front[i]) by {
            assert(front[i] == events[i]);
        }
        lemma_runs_without_quit(front);
        assert(!is_quit(events[events.len() - 1]));
    }
}

/// A running loop has stopped after a sequence of events exactly when one of
/// them is the quit key.
pub proof fn lemma_stops_iff_quit(events: Seq<InputEvent>)
    ensures
        state_after(LoopState::Running, events) == LoopState::Stopped <==> exists|i: int|
            0 <= i < events.len() && is_quit(#[trigger] events[i]),
    decreases events.len(),
{
    if events.len() > 0 {
        let front = events.drop_last();
        let last = events.len() - 1;
        lemma_stops_iff_quit(front);
        if exists|i: int| 0 <= i < front.len() && is_quit(#[trigger] front[i]) {
            let i = choose|i: int| 0 <= i < front.len() && is_quit(#[trigger] front[i]);
            assert(events[i] == front[i]);
        } else if is_quit(events[last]) {
        } else {
            assert forall|i: int| 0 <= i < events.len() implies !is_quit(#[trigger] events[i]) by {
                if i < last {
                    assert(front[i] == events[i]);
                }
            }
        }
    }
}

} // verus!
