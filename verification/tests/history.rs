use modal_shell::cursor::Cursor;
use modal_shell::history::{History, Source};

fn line(s: &str) -> Cursor {
    Cursor::from(s.to_string(), "".to_string())
}

#[test]
fn recall_walks_sent_entries_backwards() {
    let mut h = History::new();
    h.push(Source::ChildInput(line("first")));
    h.push(Source::ChildOutput(line("noise")));
    h.push(Source::ChildInput(line("second")));
    assert_eq!(h.get_prev(), line("second"));
    assert_eq!(h.get_prev(), line("first"));
    assert_eq!(h.get_prev(), line("first"));
}

#[test]
fn recall_round_trip_returns_to_the_start() {
    let mut h = History::new();
    h.push(Source::ChildInput(line("one")));
    h.push(Source::ChildInput(line("two")));
    assert_eq!(h.get_prev(), line("two"));
    assert_eq!(h.get_prev(), line("one"));
    assert_eq!(h.get_next(), line("two"));
    assert_eq!(h.get_next(), Cursor::new());
    assert_eq!(h.get_prev(), line("two"));
}

#[test]
fn recall_on_an_empty_history_is_empty() {
    let mut h = History::new();
    assert_eq!(h.get_prev(), Cursor::new());
    assert_eq!(h.get_next(), Cursor::new());
    assert_eq!(h.len(), 0);
}

#[test]
fn values_walks_oldest_first_and_restarts() {
    let mut h = History::new();
    h.push(Source::ChildInput(line("in")));
    h.push(Source::ChildOutput(line("out")));
    let mut it = h.values();
    match it.next() {
        Some(Source::ChildInput(c)) => assert_eq!(c, &line("in")),
        _ => panic!("expected the sent entry first"),
    }
    match it.next() {
        Some(Source::ChildOutput(c)) => assert_eq!(c, &line("out")),
        _ => panic!("expected the received entry second"),
    }
    assert!(it.next().is_none());
    let mut again = h.values();
    assert!(again.next().is_some());
}
