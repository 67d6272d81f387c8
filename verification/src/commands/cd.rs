//! Changing the working directory.

use vstd::prelude::*;
use crate::token::CommandData;

verus! {

/// Where `cd` goes.
#[derive(Debug, PartialEq, Eq)]
pub enum Destination {
    /// The home directory.
    Home,
    /// The directory of this name, seen from the working directory.
    Path(String),
}

/// Where the command goes: home without an option, else to the directory
/// that its first option names.
pub fn destination(cmd: &CommandData) -> (d: Destination)
    ensures
        match d {
            Destination::Home => cmd@.options.len() == 0,
            Destination::Path(p) => cmd@.options.len() > 0 && p@ == cmd@.options[0],
        },
{
    if cmd.options.len() == 0 {
        Destination::Home
    } else {
        Destination::Path(cmd.options[0].clone())
    }
}

/// What `cd` reports when there is no directory `name`.
pub fn not_found(name: &str) -> (message: String)
    ensures
        message@ == name@ + " not found"@,
{
    let mut message = String::from_str(name);
    message.append(" not found");
    message
}

} // verus!
