use tui_session::render_loop::{is_quit_event, InputEvent, Key, KeyAction, KeyInput, LoopState};

const SHIFT: u8 = 0b0000_0001;
const CONTROL: u8 = 0b0000_0010;

fn key(c: char, modifiers: u8, action: KeyAction) -> InputEvent {
    InputEvent::Key(KeyInput { key: Key::Char(c), modifiers, action })
}

fn press(c: char) -> InputEvent {
    key(c, 0, KeyAction::Press)
}

fn state_after(events: &[InputEvent]) -> LoopState {
    let mut state = LoopState::new();
    for e in events {
        state = state.on_event(e);
    }
    state
}

#[test]
fn plain_q_press_quits() {
    assert!(is_quit_event(&press('q')));
    assert_eq!(LoopState::new().on_event(&press('q')), LoopState::Stopped);
}

#[test]
fn other_keys_do_not_quit() {
    assert!(!is_quit_event(&press('Q')));
    assert!(!is_quit_event(&press('x')));
    assert!(!is_quit_event(&key('q', CONTROL, KeyAction::Press)));
    assert!(!is_quit_event(&key('q', SHIFT, KeyAction::Press)));
    assert!(!is_quit_event(&key('q', 0, KeyAction::Release)));
    assert!(!is_quit_event(&key('q', 0, KeyAction::Repeat)));
    let other = InputEvent::Key(KeyInput { key: Key::Other, modifiers: 0, action: KeyAction::Press });
    assert!(!is_quit_event(&other));
}

#[test]
fn non_key_events_do_not_quit() {
    for e in [
        InputEvent::Mouse,
        InputEvent::Resize { columns: 80, rows: 24 },
        InputEvent::FocusGained,
        InputEvent::FocusLost,
        InputEvent::Paste,
    ] {
        assert!(!is_quit_event(&e));
        assert_eq!(LoopState::Running.on_event(&e), LoopState::Running);
    }
}

#[test]
fn loop_runs_until_quit() {
    let events = [press('a'), InputEvent::Mouse, press('Q'), InputEvent::Resize { columns: 1, rows: 1 }];
    assert_eq!(state_after(&events), LoopState::Running);
    let mut with_quit = events.to_vec();
    with_quit.push(press('q'));
    assert_eq!(state_after(&with_quit), LoopState::Stopped);
}

#[test]
fn stopped_loop_stays_stopped() {
    assert_eq!(state_after(&[press('q'), press('a'), InputEvent::Mouse]), LoopState::Stopped);
    assert!(!LoopState::Stopped.on_event(&press('z')).is_running());
}

#[test]
fn empty_input_keeps_running() {
    assert_eq!(state_after(&[]), LoopState::Running);
    assert!(LoopState::new().is_running());
}
