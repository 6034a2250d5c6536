//! What the display collaborator is given: frame planning for the
//! scrollback view, and the renderer's update rule.
//!
//! Escape sequences and the terminal handle itself stay outside the
//! library; a [`Frame`] already says which lines are visible and
//! where the terminal cursor belongs.

use crate::cursor::{cursor_text, empty_cursor, is_space, is_space_char, Cursor, CursorModel};
use crate::history::source_cursor;
use crate::state::State;
use vstd::prelude::*;

verus! {

/// An update for a renderer that keeps its own copy of the screen:
/// a line of child output, a snapshot of the input line, or a
/// submitted line.
#[derive(Debug)]
pub enum OutputType {
    Child(String),
    Input(Cursor),
    Exec(String),
}

/// Mathematical value of an [`OutputType`].
#[verifier::ext_equal]
pub ghost enum OutputTypeModel {
    Child(Seq<char>),
    Input(CursorModel),
    Exec(Seq<char>),
}

impl View for OutputType {
    type V = OutputTypeModel;

    open spec fn view(&self) -> OutputTypeModel {
        match self {
            OutputType::Child(s) => OutputTypeModel::Child(s@),
            OutputType::Input(c) => OutputTypeModel::Input(c@),
            OutputType::Exec(s) => OutputTypeModel::Exec(s@),
        }
    }
}

/// The length of `s` once trailing whitespace is dropped.
pub open spec fn trim_end_len(s: Seq<char>) -> int
    decreases s.len(),
{
    if s.len() == 0 || !is_space(s.last()) {
        s.len() as int
    } else {
        trim_end_len(s.drop_last())
    }
}

/// `s` without its trailing whitespace.
pub open spec fn spec_trim_end(s: Seq<char>) -> Seq<char> {
    s.take(trim_end_len(s))
}

/// The renderer's update rule: child output is appended to the log,
/// an input snapshot replaces the held input line, and a submitted
/// line clears the input and appends its text, trailing whitespace
/// dropped.
pub fn output_step(log: &mut Vec<String>, input: &mut Cursor, m: OutputType)
    ensures
        match m@ {
            OutputTypeModel::Child(t) => final(log).deep_view() == old(log).deep_view().push(t)
                && final(input)@ == old(input)@,
            OutputTypeModel::Input(c) => final(input)@ == c && final(log).deep_view() == old(
                log,
            ).deep_view(),
            OutputTypeModel::Exec(t) => final(input)@ == empty_cursor() && final(log).deep_view()
                == old(log).deep_view().push(spec_trim_end(t)),
        },
{
    match m {
        OutputType::Child(s) => {
            let ghost t = s@;
            log.push(s);
            proof {
                assert(final(log).deep_view() =~= old(log).deep_view().push(t));
            }
        },
        OutputType::Input(c) => {
            *input = c;
        },
        OutputType::Exec(s) => {
            *input = Cursor::new();
            let ghost t = s@;
            let trimmed = trimmed_end(s.as_str());
            log.push(trimmed);
            proof {
                assert(final(log).deep_view() =~= old(log).deep_view().push(spec_trim_end(t)));
            }
        },
    }
}

/// A copy of `s` without its trailing whitespace.
fn trimmed_end(s: &str) -> (r: String)
    ensures
        r@ == spec_trim_end(s@),
{
    let n = s.unicode_len();
    let mut k: usize = n;
    proof {
        assert(s@.take(n as int) =~= s@);
    }
    while k > 0 && is_space_char(s.get_char(k - 1))
        invariant
            k <= n,
            n == s@.len(),
            trim_end_len(s@) == trim_end_len(s@.take(k as int)),
        decreases k,
    {
        proof {
            assert(s@.take(k as int).last() == s@[k - 1]);
            assert(s@.take(k as int).drop_last() =~= s@.take(k - 1));
        }
        k = k - 1;
    }
    proof {
        if k > 0 {
            assert(s@.take(k as int).last() == s@[k - 1]);
        }
        assert(trim_end_len(s@.take(k as int)) == k);
    }
    let t = s.substring_char(0, k);
    String::from_str(t)
}

/// One finished frame: the visible scrollback lines oldest first, the
/// input line, the 1-based row the input line is drawn on, and the
/// 1-based column the terminal cursor lands on.
#[derive(Debug)]
pub struct Frame {
    pub lines: Vec<String>,
    pub input: String,
    pub input_row: u16,
    pub cursor_col: u16,
}

/// The text of the history entries that fit on a screen of `rows`
/// rows: the newest `rows` of them, oldest first.
pub open spec fn spec_visible(entries: Seq<crate::history::SourceModel>, rows: int) -> Seq<
    Seq<char>,
> {
    let skip = if entries.len() > rows {
        entries.len() - rows
    } else {
        0
    };
    Seq::new((entries.len() - skip) as nat, |i: int| cursor_text(source_cursor(entries[skip + i])))
}

/// The row the input line is drawn on: under the scrollback, clamped
/// to the bottom of the screen.
pub open spec fn spec_input_row(len: int, rows: int) -> int {
    if len > rows {
        rows
    } else if len + 1 > 0xFFFF {
        0xFFFF as int
    } else {
        len + 1
    }
}

/// Plans one frame from the current state.
pub fn frame(state: &State) -> (r: Frame)
    ensures
        r.lines.deep_view() == spec_visible(state@.history.entries, state@.size.1 as int),
        r.input@ == cursor_text(state@.input),
        r.input_row as int == spec_input_row(
            state@.history.entries.len() as int,
            state@.size.1 as int,
        ),
        r.cursor_col as int == if crate::cursor::spec_pos(state@.input) > 0xFFFF {
            0xFFFF as int
        } else {
            crate::cursor::spec_pos(state@.input)
        },
{
    let rows = state.size.1 as usize;
    let len = state.history.len();
    let skip = if len > rows {
        len - rows
    } else {
        0
    };
    let mut lines: Vec<String> = Vec::new();
    let mut i: usize = skip;
    while i < len
        invariant
            skip <= i <= len,
            len == state@.history.entries.len(),
            skip == if len > rows {
                len - rows
            } else {
                0
            },
            lines@.len() == i - skip,
            forall|j: int|
                0 <= j < i - skip ==> #[trigger] lines@[j]@ == cursor_text(
                    source_cursor(state@.history.entries[skip + j]),
                ),
        decreases len - i,
    {
        let entry = state.history.get(i);
        let text = entry.cursor().display();
        lines.push(text);
        i = i + 1;
    }
    let input = state.input.display();
    let input_row: u16 = if len > rows {
        state.size.1
    } else if len >= 0xFFFF {
        0xFFFF
    } else {
        (len as u16) + 1
    };
    let cursor_col = state.input.col();
    proof {
        assert(lines.deep_view() =~= spec_visible(state@.history.entries, state@.size.1 as int));
    }
    Frame { lines, input, input_row, cursor_col }
}

} // verus!
