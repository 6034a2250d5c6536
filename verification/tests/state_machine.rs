use modal_shell::child::{writer_step, Message, WriterStep};
use modal_shell::config::get_config;
use modal_shell::cursor::Cursor;
use modal_shell::event::{handle_event, record_child_output};
use modal_shell::history::{History, Source};
use modal_shell::keymap::{Action, Keymap};
use modal_shell::state::{command_mode, insert_mode, normal_mode, KeyEvent, Mode, State};

fn line(s: &str) -> Cursor {
    Cursor::from(s.to_string(), "".to_string())
}

fn fresh_state(input: &str, mode: Mode) -> State {
    State {
        mode,
        size: (80, 24),
        input: line(input),
        command: Cursor::new(),
        keys: get_config(),
        history: History::new(),
    }
}

#[test]
fn enter_in_normal_mode_submits_the_line() {
    let state = fresh_state("echo hi", Mode::Normal);
    let (state, msg) = handle_event(state, KeyEvent::Enter);
    match msg {
        Message::Exec(t) => assert_eq!(t, "echo hi\n".to_string()),
        _ => panic!("expected an Exec message"),
    }
    assert_eq!(state.history.len(), 1);
    match state.history.get(0) {
        Source::ChildInput(c) => assert_eq!(c, &line("echo hi")),
        _ => panic!("expected a sent entry"),
    }
    assert_eq!(state.input, Cursor::new());
    assert_eq!(state.mode, Mode::Normal);
}

#[test]
fn a_submitted_line_is_sent_exactly_once() {
    let state = fresh_state("echo hi", Mode::Normal);
    let (state, msg) = handle_event(state, KeyEvent::Enter);
    assert!(matches!(msg, Message::Exec(_)));
    let (state, msg) = handle_event(state, KeyEvent::Char('x'));
    assert!(matches!(msg, Message::Input(_)));
    assert_eq!(state.history.len(), 1);
    assert_eq!(state.mode, Mode::Normal);
}

#[test]
fn multi_key_binding_runs_after_its_last_key() {
    let mut keys = Keymap::new();
    keys.bind("dd".to_string(), Action::DeleteLineInsert);
    let mut state = fresh_state("something", Mode::Normal);
    state.keys = keys;
    let state = normal_mode(KeyEvent::Char('d'), state);
    assert_eq!(state.mode, Mode::Normal);
    assert_eq!(state.input, line("something"));
    assert_eq!(state.command, line("d"));
    let state = normal_mode(KeyEvent::Char('d'), state);
    assert_eq!(state.input, Cursor::new());
    assert_eq!(state.mode, Mode::Insert);
    assert_eq!(state.command, Cursor::new());
}

#[test]
fn child_output_lands_after_earlier_sent_entries() {
    let mut history = History::new();
    history.push(Source::ChildInput(line("echo hi")));
    record_child_output(&mut history, "ok".to_string());
    assert_eq!(history.len(), 2);
    assert!(matches!(history.get(0), Source::ChildInput(_)));
    match history.get(1) {
        Source::ChildOutput(c) => assert_eq!(c, &line("ok")),
        _ => panic!("expected a received entry last"),
    }
}

#[test]
fn kill_halts_the_writer_pump_at_once() {
    assert!(matches!(writer_step(Message::Kill), WriterStep::Halt));
    match writer_step(Message::Exec("echo hi\n".to_string())) {
        WriterStep::Write(t) => assert_eq!(t, "echo hi\n".to_string()),
        _ => panic!("expected a write"),
    }
    assert!(matches!(
        writer_step(Message::Input(Cursor::new())),
        WriterStep::Skip
    ));
}

#[test]
fn quit_binding_asks_for_a_kill() {
    let state = fresh_state("", Mode::Normal);
    let (state, msg) = handle_event(state, KeyEvent::Char('q'));
    assert!(matches!(msg, Message::Kill));
    assert_eq!(state.mode, Mode::Quit);
}

#[test]
fn normal_mode_default_bindings_move_the_cursor() {
    let state = fresh_state("echo hi", Mode::Normal);
    let state = normal_mode(KeyEvent::Char('^'), state);
    assert_eq!(state.input.pos(), 1);
    let state = normal_mode(KeyEvent::Char('$'), state);
    assert_eq!(state.input.pos(), 8);
    let state = normal_mode(KeyEvent::Char('h'), state);
    assert_eq!(state.input.pos(), 7);
    let state = normal_mode(KeyEvent::Char('l'), state);
    assert_eq!(state.input.pos(), 8);
    let state = normal_mode(KeyEvent::Char('b'), state);
    assert_eq!(state.input, Cursor::from("echo ".to_string(), "hi".to_string()));
}

#[test]
fn normal_mode_recalls_history_with_k_and_j() {
    let mut state = fresh_state("", Mode::Normal);
    state.history.push(Source::ChildInput(line("older")));
    state.history.push(Source::ChildInput(line("newer")));
    let state = normal_mode(KeyEvent::Char('k'), state);
    assert_eq!(state.input, line("newer"));
    let state = normal_mode(KeyEvent::Char('k'), state);
    assert_eq!(state.input, line("older"));
    let state = normal_mode(KeyEvent::Char('j'), state);
    assert_eq!(state.input, line("newer"));
}

#[test]
fn esc_in_normal_mode_clears_the_pending_command() {
    let mut state = fresh_state("", Mode::Normal);
    state.command = line("d");
    let state = normal_mode(KeyEvent::Esc, state);
    assert_eq!(state.command, Cursor::new());
    assert_eq!(state.mode, Mode::Normal);
}

#[test]
fn command_mode_edits_and_submits() {
    let state = fresh_state("", Mode::Command);
    let state = command_mode(KeyEvent::Char('q'), state);
    assert_eq!(state.command, line("q"));
    let state = command_mode(KeyEvent::Enter, state);
    assert_eq!(state.mode, Mode::Quit);
    assert_eq!(state.command, Cursor::new());
}

#[test]
fn command_mode_miss_reverts_to_normal() {
    let state = fresh_state("", Mode::Command);
    let state = command_mode(KeyEvent::Char('z'), state);
    let state = command_mode(KeyEvent::Enter, state);
    assert_eq!(state.mode, Mode::Normal);
    assert_eq!(state.command, Cursor::new());
}

#[test]
fn command_mode_esc_aborts() {
    let state = fresh_state("", Mode::Command);
    let state = command_mode(KeyEvent::Char('q'), state);
    let state = command_mode(KeyEvent::Esc, state);
    assert_eq!(state.mode, Mode::Normal);
    assert_eq!(state.command, Cursor::new());
}

#[test]
fn insert_mode_types_and_leaves() {
    let state = fresh_state("", Mode::Insert);
    let state = insert_mode(KeyEvent::Char('h'), state);
    let state = insert_mode(KeyEvent::Char('i'), state);
    assert_eq!(state.input, line("hi"));
    let state = insert_mode(KeyEvent::Backspace, state);
    assert_eq!(state.input, line("h"));
    let state = insert_mode(KeyEvent::Esc, state);
    assert_eq!(state.mode, Mode::Normal);
    assert_eq!(state.input, Cursor::from("".to_string(), "h".to_string()));
}

#[test]
fn insert_mode_enter_submits() {
    let state = fresh_state("pwd", Mode::Insert);
    let (state, msg) = handle_event(state, KeyEvent::Enter);
    match msg {
        Message::Exec(t) => assert_eq!(t, "pwd\n".to_string()),
        _ => panic!("expected an Exec message"),
    }
    assert_eq!(state.mode, Mode::Normal);
}
