use modal_shell::cursor::Cursor;

#[test]
pub fn move_cursor_right() {
    let mut initial = Cursor::from(
        "console.log".to_string(),
        r#"("hello world");"#.to_string(),
    );
    initial.right_char();
    assert_eq!(
        initial,
        Cursor::from(
            "console.log(".to_string(),
            r#""hello world");"#.to_string()
        )
    );
}

#[test]
pub fn move_cursor_left() {
    let mut initial = Cursor::from(
        "console.log".to_string(),
        r#"("hello world");"#.to_string(),
    );
    initial.left_char();
    assert_eq!(
        initial,
        Cursor::from(
            "console.lo".to_string(),
            r#"g("hello world");"#.to_string()
        ),
    );
}

#[test]
fn display_is_the_concatenation() {
    let c = Cursor::from("abc".to_string(), "def".to_string());
    assert_eq!(c.display(), "abcdef".to_string());
    let mut c = Cursor::new();
    assert_eq!(c.display(), "".to_string());
    c.insert('x');
    c.insert('y');
    c.left_char();
    assert_eq!(c.display(), "xy".to_string());
    assert_eq!(c.pos(), 2);
}

#[test]
fn char_moves_are_inverse_on_nonempty_sides() {
    let mut c = Cursor::from("ab".to_string(), "cd".to_string());
    c.left_char();
    c.right_char();
    assert_eq!(c, Cursor::from("ab".to_string(), "cd".to_string()));
    c.right_char();
    c.left_char();
    assert_eq!(c, Cursor::from("ab".to_string(), "cd".to_string()));
}

#[test]
fn char_moves_stop_at_the_edges() {
    let mut c = Cursor::from("".to_string(), "tail".to_string());
    c.left_char();
    assert_eq!(c, Cursor::from("".to_string(), "tail".to_string()));
    let mut c = Cursor::from("head".to_string(), "".to_string());
    c.right_char();
    assert_eq!(c, Cursor::from("head".to_string(), "".to_string()));
}

#[test]
fn all_moves_round_trip() {
    let mut c = Cursor::from("echo hi".to_string(), "".to_string());
    c.left_all();
    assert_eq!(c.pos(), 1);
    c.right_all();
    assert_eq!(c.pos(), 8);
    assert_eq!(c, Cursor::from("echo hi".to_string(), "".to_string()));
}

#[test]
fn word_moves_are_total_on_empty_sides() {
    let mut c = Cursor::new();
    c.left_word();
    c.right_word();
    assert_eq!(c, Cursor::new());
    let mut c = Cursor::from("".to_string(), "abc".to_string());
    c.left_word();
    assert_eq!(c, Cursor::from("".to_string(), "abc".to_string()));
    let mut c = Cursor::from("abc".to_string(), "".to_string());
    c.right_word();
    assert_eq!(c, Cursor::from("abc".to_string(), "".to_string()));
}

#[test]
fn right_word_without_whitespace_moves_the_tail() {
    let mut c = Cursor::from("echo ".to_string(), "word".to_string());
    c.right_word();
    assert_eq!(c, Cursor::from("echo word".to_string(), "".to_string()));
}

#[test]
fn right_word_stops_after_the_first_boundary() {
    let mut c = Cursor::from("".to_string(), "foo bar".to_string());
    c.right_word();
    assert_eq!(c, Cursor::from("foo ".to_string(), "bar".to_string()));
}

#[test]
fn left_word_stops_after_the_last_boundary() {
    let mut c = Cursor::from("console.log".to_string(), "".to_string());
    c.left_word();
    assert_eq!(c, Cursor::from("console.".to_string(), "log".to_string()));
    let mut c = Cursor::from("word".to_string(), "".to_string());
    c.left_word();
    assert_eq!(c, Cursor::from("".to_string(), "word".to_string()));
}

#[test]
fn boundary_edits_at_the_edit_point() {
    let mut c = Cursor::from("ab".to_string(), "cd".to_string());
    c.backspace();
    assert_eq!(c, Cursor::from("a".to_string(), "cd".to_string()));
    c.delete();
    assert_eq!(c, Cursor::from("a".to_string(), "d".to_string()));
    c.delete_pos();
    assert_eq!(c, Cursor::from("a".to_string(), "".to_string()));
    c.backspace();
    c.backspace();
    assert_eq!(c, Cursor::new());
    let mut c = Cursor::from("ab".to_string(), "cd".to_string());
    c.clear_after();
    assert_eq!(c, Cursor::from("ab".to_string(), "".to_string()));
}
