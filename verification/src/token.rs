//! What a line is made of: commands and the pipes between them.

use vstd::prelude::*;
use vstd::std_specs::cmp::PartialEqSpecImpl;
use crate::text::{same_texts, texts};

verus! {

/// Where a command reads from.
#[derive(Debug, Clone, Copy, PartialEq, Eq)]
pub enum Input {
    /// The read end of a pipe, by its descriptor.
    File(i32),
    /// The shell's own standard input.
    Stdin,
}

/// Where a command writes to.
#[derive(Debug, Clone, Copy, PartialEq, Eq)]
pub enum Output {
    /// The write end of a pipe, by its descriptor.
    File(i32),
    /// The shell's own standard output.
    Stdout,
}

/// A command as mathematical values.
pub struct CommandSpec {
    pub program: Seq<char>,
    pub options: Seq<Seq<char>>,
    pub input: Option<Input>,
    pub out: Option<Output>,
}

/// Two commands name the same program with the same options.
pub open spec fn same_command(a: CommandSpec, b: CommandSpec) -> bool {
    a.program == b.program && a.options == b.options
}

/// A program with its options and, once the pipeline is built, the streams
/// that it reads from and writes to.
#[derive(Debug)]
pub struct CommandData {
    pub program: String,
    pub options: Vec<String>,
    pub input: Option<Input>,
    pub out: Option<Output>,
}

impl View for CommandData {
    type V = CommandSpec;

    open spec fn view(&self) -> CommandSpec {
        CommandSpec {
            program: self.program@,
            options: texts(self.options@),
            input: self.input,
            out: self.out,
        }
    }
}

/// Two commands are equal when they name the same program with the same
/// options, whatever their streams are.
impl PartialEq for CommandData {
    fn eq(&self, other: &CommandData) -> (r: bool) {
        self.program == other.program && same_texts(&self.options, &other.options)
    }
}

impl PartialEqSpecImpl for CommandData {
    open spec fn obeys_eq_spec() -> bool {
        true
    }

    open spec fn eq_spec(&self, other: &CommandData) -> bool {
        same_command(self@, other@)
    }
}

impl CommandData {
    /// A command that is not wired yet.
    pub fn new(program: String, options: Vec<String>) -> (c: Self)
        ensures
            c@ == (CommandSpec {
                program: program@,
                options: texts(options@),
                input: None,
                out: None,
            }),
    {
        CommandData { program: program, options: options, input: None, out: None }
    }

    /// Makes the command write to `output`.
    pub fn set_out(&mut self, output: Output)
        ensures
            final(self)@ == (CommandSpec { out: Some(output), ..old(self)@ }),
    {
        self.out = Some(output);
    }

    /// Makes the command read from `f`.
    pub fn set_input(&mut self, f: Input)
        ensures
            final(self)@ == (CommandSpec { input: Some(f), ..old(self)@ }),
    {
        self.input = Some(f);
    }
}

/// A token as mathematical values.
pub enum TokenSpec {
    Command(CommandSpec),
    Pipe,
}

/// A token of a line.
#[derive(Debug)]
pub enum Token {
    Command(CommandData),
    Pipe,
}

impl View for Token {
    type V = TokenSpec;

    open spec fn view(&self) -> TokenSpec {
        match self {
            Token::Command(c) => TokenSpec::Command(c@),
            Token::Pipe => TokenSpec::Pipe,
        }
    }
}

impl PartialEq for Token {
    fn eq(&self, other: &Token) -> (r: bool) {
        match (self, other) {
            (Token::Command(a), Token::Command(b)) => a == b,
            (Token::Pipe, Token::Pipe) => true,
            _ => false,
        }
    }
}

impl PartialEqSpecImpl for Token {
    open spec fn obeys_eq_spec() -> bool {
        true
    }

    open spec fn eq_spec(&self, other: &Token) -> bool {
        match (self, other) {
            (Token::Command(a), Token::Command(b)) => same_command(a@, b@),
            (Token::Pipe, Token::Pipe) => true,
            _ => false,
        }
    }
}

/// The views of a list of tokens.
pub open spec fn token_views(v: Seq<Token>) -> Seq<TokenSpec> {
    v.map_values(|t: Token| t@)
}

/// The views of a list of commands.
pub open spec fn command_views(v: Seq<CommandData>) -> Seq<CommandSpec> {
    v.map_values(|c: CommandData| c@)
}

} // verus!
