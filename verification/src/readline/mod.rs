//! The line-editing engine.

pub mod buffer;
pub mod color;
pub mod completer;
pub mod context;
pub mod editor;
pub mod event;
pub mod history;
pub mod reader;
pub mod signal;
pub mod terminal;
