//! The default key bindings, built once at startup.

use crate::keymap::{Action, Keymap};
use vstd::prelude::*;

verus! {

/// The default keymap: one binding per basic vi-style key.
pub open spec fn spec_default_keymap() -> Seq<(Seq<char>, Action)> {
    seq![
        ("l"@, Action::CursorRight),
        ("h"@, Action::CursorLeft),
        ("w"@, Action::CursorRightWord),
        ("b"@, Action::CursorLeftWord),
        ("$"@, Action::CursorRightAll),
        ("^"@, Action::CursorLeftAll),
        ("i"@, Action::Insert),
        ("I"@, Action::InsertStart),
        ("a"@, Action::Append),
        ("A"@, Action::AppendEnd),
        ("S"@, Action::DeleteLineInsert),
        ("q"@, Action::Quit),
    ]
}

/// Builds the default keymap.
pub fn get_config() -> (r: Keymap)
    ensures
        r@ == spec_default_keymap(),
{
    let mut m = Keymap::new();
    m.bind(String::from_str("l"), Action::CursorRight);
    m.bind(String::from_str("h"), Action::CursorLeft);
    m.bind(String::from_str("w"), Action::CursorRightWord);
    m.bind(String::from_str("b"), Action::CursorLeftWord);
    m.bind(String::from_str("$"), Action::CursorRightAll);
    m.bind(String::from_str("^"), Action::CursorLeftAll);
    m.bind(String::from_str("i"), Action::Insert);
    m.bind(String::from_str("I"), Action::InsertStart);
    m.bind(String::from_str("a"), Action::Append);
    m.bind(String::from_str("A"), Action::AppendEnd);
    m.bind(String::from_str("S"), Action::DeleteLineInsert);
    m.bind(String::from_str("q"), Action::Quit);
    proof {
        assert(m@ =~= spec_default_keymap());
    }
    m
}

} // verus!
