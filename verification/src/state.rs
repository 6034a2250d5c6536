//! The modal state machine: a pure transition function from (mode,
//! key event) to the next editor state.
//!
//! Every transition consumes the current [`State`] by value and
//! returns the new one; the event loop is the single owner, so no
//! other execution context ever observes an intermediate state.

use crate::cursor::{
    cursor_text, empty_cursor, spec_backspace, spec_clear_after, spec_delete, spec_insert,
    spec_left_all, spec_left_char, spec_left_word, spec_right_all, spec_right_char,
    spec_right_word, Cursor, CursorModel,
};
use crate::history::{
    spec_next, spec_next_cursor, spec_prev, spec_prev_cursor, History, HistoryModel,
};
use crate::keymap::{spec_lookup, Action, Keymap};
use vstd::prelude::*;

verus! {

/// The modal-editing mode governing key-event interpretation.
///
/// `Execute` and `Quit` are never fed key events: the event loop
/// drains `Execute` back to `Normal` at once, and `Quit` ends the
/// loop.
#[derive(Clone, Copy, Debug, PartialEq, Eq, Structural)]
pub enum Mode {
    Execute,
    Command,
    Insert,
    Normal,
    Quit,
}

/// One key event from the terminal.
#[derive(Clone, Copy, Debug, PartialEq, Eq, Structural)]
pub enum KeyEvent {
    Char(char),
    Enter,
    Esc,
    Backspace,
    Delete,
    Left,
    Right,
}

/// Whether an event submits the current line.
pub open spec fn is_enter(evt: KeyEvent) -> bool {
    evt is Enter || evt == KeyEvent::Char('\n')
}

/// The aggregate editor state: mode, terminal size, the input line,
/// the pending command line, the keymap and the history.
#[derive(Debug)]
pub struct State {
    pub mode: Mode,
    pub size: (u16, u16),
    pub input: Cursor,
    pub command: Cursor,
    pub keys: Keymap,
    pub history: History,
}

/// Mathematical value of a [`State`].
#[verifier::ext_equal]
pub ghost struct StateModel {
    pub mode: Mode,
    pub size: (u16, u16),
    pub input: CursorModel,
    pub command: CursorModel,
    pub keys: Seq<(Seq<char>, Action)>,
    pub history: HistoryModel,
}

impl View for State {
    type V = StateModel;

    open spec fn view(&self) -> StateModel {
        StateModel {
            mode: self.mode,
            size: self.size,
            input: self.input@,
            command: self.command@,
            keys: self.keys@,
            history: self.history@,
        }
    }
}

/// What an [`Action`] does to the state. Each action both edits a
/// cursor or the mode; all but the pure cursor moves also set the
/// next mode.
pub open spec fn spec_apply(a: Action, s: StateModel) -> StateModel {
    match a {
        Action::Enter => StateModel {
            mode: Mode::Execute,
            history: HistoryModel { pos: 0, ..s.history },
            ..s
        },
        Action::Insert => StateModel { mode: Mode::Insert, ..s },
        Action::InsertStart => StateModel {
            mode: Mode::Insert,
            input: spec_left_all(s.input),
            ..s
        },
        Action::Append => StateModel { mode: Mode::Insert, input: spec_right_char(s.input), ..s },
        Action::AppendEnd => StateModel {
            mode: Mode::Insert,
            input: spec_right_all(s.input),
            ..s
        },
        Action::DeletePosInsert => StateModel {
            mode: Mode::Insert,
            input: spec_delete(s.input),
            ..s
        },
        Action::DeleteLineInsert => StateModel { mode: Mode::Insert, input: empty_cursor(), ..s },
        Action::ClearAfterCursor => StateModel {
            mode: Mode::Insert,
            input: spec_clear_after(s.input),
            ..s
        },
        Action::CursorLeft => StateModel { input: spec_left_char(s.input), ..s },
        Action::CursorRight => StateModel { input: spec_right_char(s.input), ..s },
        Action::CursorLeftWord => StateModel { input: spec_left_word(s.input), ..s },
        Action::CursorRightWord => StateModel { input: spec_right_word(s.input), ..s },
        Action::CursorLeftAll => StateModel { input: spec_left_all(s.input), ..s },
        Action::CursorRightAll => StateModel { input: spec_right_all(s.input), ..s },
        Action::Quit => StateModel { mode: Mode::Quit, ..s },
    }
}

/// The `Execute` transition: the mode switches and the history
/// recall position resets.
pub open spec fn spec_execute(s: StateModel) -> StateModel {
    StateModel { mode: Mode::Execute, history: HistoryModel { pos: 0, ..s.history }, ..s }
}

/// What a key event does in `Normal` mode.
///
/// `Esc` clears the pending command; `Enter` starts an `Execute`
/// transition; `:` enters `Command` mode; `k` and `j` recall history;
/// any other character extends the pending command, which is looked
/// up in the keymap — a hit runs the bound action and clears the
/// pending command, a miss keeps accumulating.
pub open spec fn spec_normal(evt: KeyEvent, s: StateModel) -> StateModel {
    if evt is Esc {
        StateModel { command: empty_cursor(), ..s }
    } else if is_enter(evt) {
        spec_execute(s)
    } else if evt == KeyEvent::Char(':') {
        StateModel { mode: Mode::Command, ..s }
    } else if evt == KeyEvent::Char('k') {
        StateModel { input: spec_prev_cursor(s.history), history: spec_prev(s.history), ..s }
    } else if evt == KeyEvent::Char('j') {
        StateModel { input: spec_next_cursor(s.history), history: spec_next(s.history), ..s }
    } else if evt is Char {
        let cmd = spec_insert(s.command, evt->Char_0);
        match spec_lookup(s.keys, cursor_text(cmd)) {
            Some(a) => spec_apply(a, StateModel { command: empty_cursor(), ..s }),
            None => StateModel { command: cmd, ..s },
        }
    } else {
        s
    }
}

/// What a key event does in `Command` mode.
///
/// Line-edit keys edit the pending command; `Enter` looks the
/// completed text up in the keymap, running the bound action on a hit
/// and reverting to `Normal` on a miss; `Esc` aborts to `Normal`.
pub open spec fn spec_command(evt: KeyEvent, s: StateModel) -> StateModel {
    if evt is Esc {
        StateModel { command: empty_cursor(), mode: Mode::Normal, ..s }
    } else if is_enter(evt) {
        match spec_lookup(s.keys, cursor_text(s.command)) {
            Some(a) => spec_apply(a, StateModel { command: empty_cursor(), ..s }),
            None => StateModel { command: empty_cursor(), mode: Mode::Normal, ..s },
        }
    } else if evt is Backspace {
        StateModel { command: spec_backspace(s.command), ..s }
    } else if evt is Delete {
        StateModel { command: spec_delete(s.command), ..s }
    } else if evt is Left {
        StateModel { command: spec_left_char(s.command), ..s }
    } else if evt is Right {
        StateModel { command: spec_right_char(s.command), ..s }
    } else {
        StateModel { command: spec_insert(s.command, evt->Char_0), ..s }
    }
}

/// What a key event does in `Insert` mode.
///
/// Line-edit keys edit the input line directly; `Enter` starts an
/// `Execute` transition; `Esc` moves one character left and returns
/// to `Normal`.
pub open spec fn spec_insert_mode(evt: KeyEvent, s: StateModel) -> StateModel {
    if evt is Esc {
        StateModel { input: spec_left_char(s.input), mode: Mode::Normal, ..s }
    } else if is_enter(evt) {
        spec_execute(s)
    } else if evt is Backspace {
        StateModel { input: spec_backspace(s.input), ..s }
    } else if evt is Delete {
        StateModel { input: spec_delete(s.input), ..s }
    } else if evt is Left {
        StateModel { input: spec_left_char(s.input), ..s }
    } else if evt is Right {
        StateModel { input: spec_right_char(s.input), ..s }
    } else {
        StateModel { input: spec_insert(s.input, evt->Char_0), ..s }
    }
}

/// Runs the bound action against the state.
pub fn apply_action(a: Action, state: State) -> (r: State)
    ensures
        r@ == spec_apply(a, state@),
{
    let ghost s0 = state@;
    let mut state = state;
    match a {
        Action::Enter => {
            state.history.reset_recall();
            state.mode = Mode::Execute;
        },
        Action::Insert => {
            state.mode = Mode::Insert;
        },
        Action::InsertStart => {
            state.input.left_all();
            state.mode = Mode::Insert;
        },
        Action::Append => {
            state.input.right_char();
            state.mode = Mode::Insert;
        },
        Action::AppendEnd => {
            state.input.right_all();
            state.mode = Mode::Insert;
        },
        Action::DeletePosInsert => {
            state.input.delete_pos();
            state.mode = Mode::Insert;
        },
        Action::DeleteLineInsert => {
            state.input = Cursor::new();
            state.mode = Mode::Insert;
        },
        Action::ClearAfterCursor => {
            state.input.clear_after();
            state.mode = Mode::Insert;
        },
        Action::CursorLeft => {
            state.input.left_char();
        },
        Action::CursorRight => {
            state.input.right_char();
        },
        Action::CursorLeftWord => {
            state.input.left_word();
        },
        Action::CursorRightWord => {
            state.input.right_word();
        },
        Action::CursorLeftAll => {
            state.input.left_all();
        },
        Action::CursorRightAll => {
            state.input.right_all();
        },
        Action::Quit => {
            state.mode = Mode::Quit;
        },
    }
    proof {
        assert(state@ =~~= spec_apply(a, s0));
    }
    state
}

/// Handles one key event in `Normal` mode.
///
/// The line-edit keys are a defect here: a well-formed input source
/// never sends them in `Normal` mode, so they are ruled out rather
/// than interpreted.
pub fn normal_mode(evt: KeyEvent, state: State) -> (r: State)
    requires
        !(evt is Backspace || evt is Delete || evt is Left || evt is Right),
    ensures
        r@ == spec_normal(evt, state@),
{
    let ghost s0 = state@;
    let mut state = state;
    match evt {
        KeyEvent::Esc => {
            state.command = Cursor::new();
            proof {
                assert(state@ =~~= spec_normal(evt, s0));
            }
            state
        },
        KeyEvent::Enter => {
            state.history.reset_recall();
            state.mode = Mode::Execute;
            proof {
                assert(state@ =~~= spec_normal(evt, s0));
            }
            state
        },
        KeyEvent::Char(c) => {
            if c == '\n' {
                state.history.reset_recall();
                state.mode = Mode::Execute;
                proof {
                    assert(state@ =~~= spec_normal(evt, s0));
                }
                state
            } else if c == ':' {
                state.mode = Mode::Command;
                proof {
                    assert(state@ =~~= spec_normal(evt, s0));
                }
                state
            } else if c == 'k' {
                let recalled = state.history.get_prev();
                state.input = recalled;
                proof {
                    assert(state@ =~~= spec_normal(evt, s0));
                }
                state
            } else if c == 'j' {
                let recalled = state.history.get_next();
                state.input = recalled;
                proof {
                    assert(state@ =~~= spec_normal(evt, s0));
                }
                state
            } else {
                state.command.insert(c);
                let text = state.command.display();
                match state.keys.get(&text) {
                    Some(a) => {
                        state.command = Cursor::new();
                        let r = apply_action(a, state);
                        proof {
                            assert(r@ =~~= spec_normal(evt, s0));
                        }
                        r
                    },
                    None => {
                        proof {
                            assert(state@ =~~= spec_normal(evt, s0));
                        }
                        state
                    },
                }
            }
        },
        _ => {
            proof {
                assert(false);
            }
            state
        },
    }
}

/// Handles one key event in `Command` mode.
pub fn command_mode(evt: KeyEvent, state: State) -> (r: State)
    ensures
        r@ == spec_command(evt, state@),
{
    let ghost s0 = state@;
    let mut state = state;
    match evt {
        KeyEvent::Esc => {
            state.command = Cursor::new();
            state.mode = Mode::Normal;
        },
        KeyEvent::Enter => {
            state = command_submit(state);
        },
        KeyEvent::Backspace => {
            state.command.backspace();
        },
        KeyEvent::Delete => {
            state.command.delete();
        },
        KeyEvent::Left => {
            state.command.left_char();
        },
        KeyEvent::Right => {
            state.command.right_char();
        },
        KeyEvent::Char(c) => {
            if c == '\n' {
                state = command_submit(state);
            } else {
                state.command.insert(c);
            }
        },
    }
    proof {
        assert(state@ =~~= spec_command(evt, s0));
    }
    state
}

/// Looks the completed command text up in the keymap: a hit runs the
/// bound action, a miss reverts to `Normal`; either way the pending
/// command is cleared.
fn command_submit(state: State) -> (r: State)
    ensures
        r@ == (match spec_lookup(state@.keys, cursor_text(state@.command)) {
            Some(a) => spec_apply(a, StateModel { command: empty_cursor(), ..state@ }),
            None => StateModel { command: empty_cursor(), mode: Mode::Normal, ..state@ },
        }),
{
    let ghost s0 = state@;
    let mut state = state;
    let text = state.command.display();
    match state.keys.get(&text) {
        Some(a) => {
            state.command = Cursor::new();
            let r = apply_action(a, state);
            proof {
                assert(r@ =~~= spec_apply(
                    spec_lookup(s0.keys, cursor_text(s0.command)).unwrap(),
                    StateModel { command: empty_cursor(), ..s0 },
                ));
            }
            r
        },
        None => {
            state.command = Cursor::new();
            state.mode = Mode::Normal;
            proof {
                assert(state@ =~~= (StateModel {
                    command: empty_cursor(),
                    mode: Mode::Normal,
                    ..s0
                }));
            }
            state
        },
    }
}

/// Handles one key event in `Insert` mode.
pub fn insert_mode(evt: KeyEvent, state: State) -> (r: State)
    ensures
        r@ == spec_insert_mode(evt, state@),
{
    let ghost s0 = state@;
    let mut state = state;
    match evt {
        KeyEvent::Esc => {
            state.input.left_char();
            state.mode = Mode::Normal;
        },
        KeyEvent::Enter => {
            state.history.reset_recall();
            state.mode = Mode::Execute;
        },
        KeyEvent::Backspace => {
            state.input.backspace();
        },
        KeyEvent::Delete => {
            state.input.delete();
        },
        KeyEvent::Left => {
            state.input.left_char();
        },
        KeyEvent::Right => {
            state.input.right_char();
        },
        KeyEvent::Char(c) => {
            if c == '\n' {
                state.history.reset_recall();
                state.mode = Mode::Execute;
            } else {
                state.input.insert(c);
            }
        },
    }
    proof {
        assert(state@ =~~= spec_insert_mode(evt, s0));
    }
    state
}

} // verus!
