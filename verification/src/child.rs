//! Messages to the child bridge and the writer pump's decision rule.
//!
//! The bridge itself — the spawned process, the queue and the two
//! pumps — lives outside this library; the pump drives every message
//! it receives through [`writer_step`] and obeys the returned step.

use crate::cursor::{Cursor, CursorModel};
use vstd::prelude::*;

verus! {

/// A message from the event loop to the child bridge's command queue.
#[derive(Debug)]
pub enum Message {
    /// A finished line for the child's standard input, newline
    /// included.
    Exec(String),
    /// A snapshot of the current input line; accepted and ignored, a
    /// reserved extension point for live echo to the child.
    Input(Cursor),
    /// Stop the writer pump.
    Kill,
}

/// Mathematical value of a [`Message`].
#[verifier::ext_equal]
pub ghost enum MessageModel {
    Exec(Seq<char>),
    Input(CursorModel),
    Kill,
}

impl View for Message {
    type V = MessageModel;

    open spec fn view(&self) -> MessageModel {
        match self {
            Message::Exec(t) => MessageModel::Exec(t@),
            Message::Input(c) => MessageModel::Input(c@),
            Message::Kill => MessageModel::Kill,
        }
    }
}

/// What the writer pump does with one received message.
#[derive(Debug)]
pub enum WriterStep {
    /// Write this text to the child and flush at once, so the child
    /// observes its input promptly.
    Write(String),
    /// Stop consuming the queue; the pump terminates within this
    /// receive iteration.
    Halt,
    /// Ignore the message and keep receiving.
    Skip,
}

/// The writer pump's decision rule: `Exec` text is written and
/// flushed, `Kill` halts the pump before it receives anything
/// further, `Input` is ignored.
pub fn writer_step(m: Message) -> (r: WriterStep)
    ensures
        match m@ {
            MessageModel::Exec(t) => r matches WriterStep::Write(w) && w@ == t,
            MessageModel::Input(_) => r is Skip,
            MessageModel::Kill => r is Halt,
        },
{
    match m {
        Message::Exec(t) => WriterStep::Write(t),
        Message::Input(_) => WriterStep::Skip,
        Message::Kill => WriterStep::Halt,
    }
}

} // verus!
