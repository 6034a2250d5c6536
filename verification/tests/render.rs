use modal_shell::config::get_config;
use modal_shell::cursor::Cursor;
use modal_shell::history::{History, Source};
use modal_shell::keymap::{Action, Keymap, KeymapError};
use modal_shell::output::{frame, output_step, OutputType};
use modal_shell::state::{Mode, State};

fn line(s: &str) -> Cursor {
    Cursor::from(s.to_string(), "".to_string())
}

#[test]
fn default_keymap_has_the_expected_bindings() {
    let keys = get_config();
    assert_eq!(keys.len(), 12);
    assert_eq!(keys.get(&"l".to_string()), Some(Action::CursorRight));
    assert_eq!(keys.get(&"h".to_string()), Some(Action::CursorLeft));
    assert_eq!(keys.get(&"w".to_string()), Some(Action::CursorRightWord));
    assert_eq!(keys.get(&"b".to_string()), Some(Action::CursorLeftWord));
    assert_eq!(keys.get(&"$".to_string()), Some(Action::CursorRightAll));
    assert_eq!(keys.get(&"^".to_string()), Some(Action::CursorLeftAll));
    assert_eq!(keys.get(&"i".to_string()), Some(Action::Insert));
    assert_eq!(keys.get(&"I".to_string()), Some(Action::InsertStart));
    assert_eq!(keys.get(&"a".to_string()), Some(Action::Append));
    assert_eq!(keys.get(&"A".to_string()), Some(Action::AppendEnd));
    assert_eq!(keys.get(&"S".to_string()), Some(Action::DeleteLineInsert));
    assert_eq!(keys.get(&"q".to_string()), Some(Action::Quit));
    assert_eq!(keys.get(&"z".to_string()), None);
}

#[test]
fn unknown_action_names_are_a_load_time_error() {
    let mut keys = Keymap::new();
    assert_eq!(
        keys.bind_name("x".to_string(), "NoSuchAction"),
        Err(KeymapError::UnknownAction)
    );
    assert_eq!(keys.len(), 0);
    assert_eq!(keys.bind_name("x".to_string(), "Quit"), Ok(()));
    assert_eq!(keys.get(&"x".to_string()), Some(Action::Quit));
}

#[test]
fn frame_shows_the_newest_lines_and_the_cursor() {
    let mut history = History::new();
    history.push(Source::ChildInput(line("echo hi")));
    history.push(Source::ChildOutput(line("hi")));
    let state = State {
        mode: Mode::Normal,
        size: (80, 24),
        input: Cursor::from("ne".to_string(), "xt".to_string()),
        command: Cursor::new(),
        keys: get_config(),
        history,
    };
    let f = frame(&state);
    assert_eq!(f.lines.len(), 2);
    assert_eq!(f.lines[0], "echo hi".to_string());
    assert_eq!(f.lines[1], "hi".to_string());
    assert_eq!(f.input, "next".to_string());
    assert_eq!(f.input_row, 3);
    assert_eq!(f.cursor_col, 3);
}

#[test]
fn frame_scrolls_once_the_screen_is_full() {
    let mut history = History::new();
    for i in 0..5 {
        history.push(Source::ChildOutput(line(&format!("line{}", i))));
    }
    let state = State {
        mode: Mode::Normal,
        size: (80, 3),
        input: Cursor::new(),
        command: Cursor::new(),
        keys: get_config(),
        history,
    };
    let f = frame(&state);
    assert_eq!(f.lines.len(), 3);
    assert_eq!(f.lines[0], "line2".to_string());
    assert_eq!(f.lines[2], "line4".to_string());
    assert_eq!(f.input_row, 3);
    assert_eq!(f.cursor_col, 1);
}

#[test]
fn renderer_updates_follow_the_message() {
    let mut log: Vec<String> = Vec::new();
    let mut input = Cursor::new();
    output_step(&mut log, &mut input, OutputType::Child("hello".to_string()));
    assert_eq!(log, vec!["hello".to_string()]);
    output_step(
        &mut log,
        &mut input,
        OutputType::Input(line("typing")),
    );
    assert_eq!(input, line("typing"));
    output_step(&mut log, &mut input, OutputType::Exec("echo hi\n".to_string()));
    assert_eq!(input, Cursor::new());
    assert_eq!(log, vec!["hello".to_string(), "echo hi".to_string()]);
}
