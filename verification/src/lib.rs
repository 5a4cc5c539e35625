//! An in-memory todo list driven by line-oriented commands.
//!
//! The list holds tasks that are only ever appended; `remove` soft-deletes a
//! task (it stays in storage, hidden from the rendering) and `done` marks it
//! completed.  `command::execute_line` processes one input line exactly as the
//! interactive loop does: tokenize, dispatch, mutate, render.

pub mod task;
pub mod tokenize;
pub mod chars;
pub mod command;
pub mod laws;
pub mod numfmt;
pub mod numparse;
pub mod render;
pub mod ops;
