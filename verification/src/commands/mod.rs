//! What the builtin commands decide before they act.

pub mod cd;
