//! The core of an interactive Unix shell: a line editor that draws into a
//! buffer, a tokenizer, and the wiring of commands into a pipeline.
//!
//! Nothing here reads from or writes to the terminal, forks or waits: the
//! caller does, with what this library hands out. The one thing that the
//! library asks of the system itself are the pipes of a pipeline.

pub mod commands;
pub mod completer;
pub mod parser;
pub mod process;
pub mod readline;
pub mod term;
pub mod text;
pub mod token;
