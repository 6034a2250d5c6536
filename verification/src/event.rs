//! The event loop's decision logic, one observed event at a time.
//!
//! The loop around it polls the terminal and the bridge's output
//! channel; everything it decides — how a key changes the state,
//! which message goes to the bridge, how child output is recorded —
//! is here, so the loop itself only moves bytes.

use crate::child::{Message, MessageModel};
use crate::cursor::{cursor_text, empty_cursor, string_push, Cursor, CursorModel};
use crate::history::{History, HistoryModel, Source, SourceModel};
use crate::state::{
    spec_command, spec_insert_mode, spec_normal, KeyEvent, Mode, State, StateModel,
};
use vstd::prelude::*;

verus! {

/// Dispatches one key event to the mode the state is in.
pub open spec fn spec_dispatch(evt: KeyEvent, s: StateModel) -> StateModel {
    match s.mode {
        Mode::Command => spec_command(evt, s),
        Mode::Insert => spec_insert_mode(evt, s),
        Mode::Normal => spec_normal(evt, s),
        Mode::Execute => s,
        Mode::Quit => s,
    }
}

/// Draining an `Execute` transition: the submitted line is recorded
/// as sent, the input line is cleared, and the mode is forced back to
/// `Normal`.
pub open spec fn spec_drain_execute(s: StateModel) -> StateModel {
    StateModel {
        mode: Mode::Normal,
        input: empty_cursor(),
        history: HistoryModel {
            entries: s.history.entries.push(SourceModel::Input(s.input)),
            ..s.history
        },
        ..s
    }
}

/// The state after one observed key event, and the one message the
/// loop owes the bridge for it: the submitted line plus newline on an
/// `Execute` transition, `Kill` on `Quit`, and otherwise a snapshot
/// of the input line.
pub open spec fn spec_step(evt: KeyEvent, s: StateModel) -> (StateModel, MessageModel) {
    let s1 = spec_dispatch(evt, s);
    if s1.mode is Execute {
        (spec_drain_execute(s1), MessageModel::Exec(cursor_text(s1.input).push('\n')))
    } else if s1.mode is Quit {
        (s1, MessageModel::Kill)
    } else {
        (s1, MessageModel::Input(s1.input))
    }
}

/// Handles one key event: dispatches it to the current mode, drains
/// an `Execute` transition at once, and hands back the single message
/// the bridge is owed.
///
/// The `Exec` message and its history entry arise here exactly once
/// per `Execute` transition. `Execute` and `Quit` never receive key
/// events, and `Normal` mode never receives line-edit keys from a
/// well-formed input source; both are ruled out rather than
/// interpreted.
pub fn handle_event(state: State, evt: KeyEvent) -> (r: (State, Message))
    requires
        state@.mode is Normal || state@.mode is Command || state@.mode is Insert,
        state@.mode is Normal ==> !(evt is Backspace || evt is Delete || evt is Left
            || evt is Right),
    ensures
        r.0@ == spec_step(evt, state@).0,
        r.1@ == spec_step(evt, state@).1,
{
    let ghost s0 = state@;
    let mut state = match state.mode {
        Mode::Command => crate::state::command_mode(evt, state),
        Mode::Insert => crate::state::insert_mode(evt, state),
        Mode::Normal => crate::state::normal_mode(evt, state),
        Mode::Execute => state,
        Mode::Quit => state,
    };
    let is_execute = match state.mode {
        Mode::Execute => true,
        _ => false,
    };
    if is_execute {
        let mut text = state.input.display();
        string_push(&mut text, '\n');
        let submitted = state.input.clone();
        state.history.push(Source::ChildInput(submitted));
        state.input = Cursor::new();
        state.mode = Mode::Normal;
        proof {
            assert(state@ =~~= spec_step(evt, s0).0);
            assert(text@ =~~= cursor_text(spec_dispatch(evt, s0).input).push('\n'));
        }
        (state, Message::Exec(text))
    } else {
        let is_quit = match state.mode {
            Mode::Quit => true,
            _ => false,
        };
        if is_quit {
            proof {
                assert(state@ =~~= spec_step(evt, s0).0);
            }
            (state, Message::Kill)
        } else {
            let snapshot = state.input.clone();
            proof {
                assert(state@ =~~= spec_step(evt, s0).0);
            }
            (state, Message::Input(snapshot))
        }
    }
}

/// Records one complete line of child output in the history; the
/// reader pump's lines reach the history only through this.
pub fn record_child_output(history: &mut History, line: String)
    ensures
        final(history)@.entries == old(history)@.entries.push(
            SourceModel::Output(CursorModel { before: line@, after: Seq::empty() }),
        ),
        final(history)@.pos == old(history)@.pos,
{
    let ghost l = line@;
    history.push(Source::ChildOutput(Cursor::from(line, String::new())));
    proof {
        assert(final(history)@.entries =~~= old(history)@.entries.push(
            SourceModel::Output(CursorModel { before: l, after: Seq::empty() }),
        ));
    }
}

} // verus!
