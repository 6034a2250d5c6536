//! A modal, vi-inspired line editor for a terminal-resident process
//! wrapper: a split-buffer cursor, a history log with recall, a mode
//! state machine driven by a configurable keymap, and the pure decision
//! logic of the event loop and the child-process bridge.

pub mod child;
pub mod config;
pub mod cursor;
pub mod event;
pub mod history;
pub mod keymap;
pub mod output;
pub mod state;
