//! From a line to its tokens, and from the tokens to a pipeline.

use vstd::prelude::*;
use crate::text::{chars_of, is_space, is_whitespace, string_of};
use crate::token::{
    command_views, token_views, CommandData, CommandSpec, Input, Output, Token, TokenSpec,
};

verus! {

/// The character that stands between the commands of a pipeline.
pub const PIPE: char = '|';

/// A pipe as its two descriptors: the end to read from, then the end to write to.
pub type PipeEnds = (i32, i32);

/// A character of a word: neither whitespace nor the pipe character.
pub open spec fn is_word_char(c: char) -> bool {
    !is_whitespace(c) && c != PIPE
}

/// The first index from `from` on that holds no whitespace; where there is
/// none, the length, or `from` if that lies behind the end.
pub open spec fn skip_spaces(s: Seq<char>, from: int) -> int
    decreases s.len() - from,
{
    if from < 0 || from >= s.len() {
        from
    } else if !is_whitespace(s[from]) {
        from
    } else {
        skip_spaces(s, from + 1)
    }
}

/// The first index from `from` on that holds no character of a word; where
/// there is none, the length, or `from` if that lies behind the end.
pub open spec fn word_end(s: Seq<char>, from: int) -> int
    decreases s.len() - from,
{
    if from < 0 || from >= s.len() {
        from
    } else if !is_word_char(s[from]) {
        from
    } else {
        word_end(s, from + 1)
    }
}

/// Both searches answer with an index from `from` on, inside the line
/// where `from` is.
pub proof fn lemma_scan_bounds(s: Seq<char>, from: int)
    requires
        0 <= from,
    ensures
        from <= skip_spaces(s, from),
        from <= word_end(s, from),
        from <= s.len() ==> skip_spaces(s, from) <= s.len() && word_end(s, from) <= s.len(),
        from < s.len() && is_word_char(s[from]) ==> from < word_end(s, from),
        skip_spaces(s, from) < s.len() ==> !is_whitespace(s[skip_spaces(s, from)]),
    decreases s.len() - from,
{
    if from < s.len() {
        lemma_scan_bounds(s, from + 1);
    }
}

/// The options that follow at `from`, up to the next pipe character or the
/// end of the line, and the index at which they end.
pub open spec fn options_from(s: Seq<char>, from: int) -> (Seq<Seq<char>>, int)
    decreases s.len() - from,
{
    let p = skip_spaces(s, from);
    if from < 0 || p < 0 || p >= s.len() || !is_word_char(s[p]) {
        (Seq::empty(), p)
    } else {
        let e = word_end(s, p);
        proof {
            lemma_scan_bounds(s, from);
            lemma_scan_bounds(s, p);
        }
        let rest = options_from(s, e);
        (seq![s.subrange(p, e)] + rest.0, rest.1)
    }
}

/// The options end at an index from `from` on, inside the line where `from` is.
pub proof fn lemma_options_bounds(s: Seq<char>, from: int)
    requires
        0 <= from,
    ensures
        from <= options_from(s, from).1,
        from <= s.len() ==> options_from(s, from).1 <= s.len(),
    decreases s.len() - from,
{
    lemma_scan_bounds(s, from);
    let p = skip_spaces(s, from);
    if p < s.len() && is_word_char(s[p]) {
        lemma_scan_bounds(s, p);
        lemma_options_bounds(s, word_end(s, p));
    }
}

/// A command without a program: what stands where a pipeline lacks a command.
pub open spec fn empty_command() -> CommandSpec {
    CommandSpec { program: Seq::empty(), options: Seq::empty(), input: None, out: None }
}

/// The command whose program begins at `p`, and the index at which it ends.
pub open spec fn command_from(s: Seq<char>, p: int) -> (CommandSpec, int) {
    let e = word_end(s, p);
    let opts = options_from(s, e);
    (CommandSpec { program: s.subrange(p, e), options: opts.0, input: None, out: None }, opts.1)
}

/// The command that is lacking, where one is: at the start of the line and
/// behind a pipe character.
pub open spec fn lacking(after_command: bool) -> Seq<TokenSpec> {
    if after_command {
        Seq::empty()
    } else {
        seq![TokenSpec::Command(empty_command())]
    }
}

/// The tokens from `from` on. Whitespace separates words and is skipped. A
/// pipe character is a token wherever it stands; before it, and at the end
/// of the line, there is a command, without a program if need be.
pub open spec fn tokens_from(s: Seq<char>, from: int, after_command: bool) -> Seq<TokenSpec>
    decreases s.len() - from,
{
    let p = skip_spaces(s, from);
    if from < 0 || p < 0 || p >= s.len() {
        lacking(after_command)
    } else if s[p] == PIPE {
        proof {
            lemma_scan_bounds(s, from);
        }
        lacking(after_command) + seq![TokenSpec::Pipe] + tokens_from(s, p + 1, false)
    } else {
        proof {
            lemma_scan_bounds(s, from);
            lemma_scan_bounds(s, p);
            lemma_options_bounds(s, word_end(s, p));
        }
        seq![TokenSpec::Command(command_from(s, p).0)] + tokens_from(
            s,
            command_from(s, p).1,
            true,
        )
    }
}

/// The tokens of the line `s`.
pub open spec fn tokens(s: Seq<char>) -> Seq<TokenSpec> {
    tokens_from(s, 0, false)
}

/// The number of pipes among `t`.
pub open spec fn pipe_count(t: Seq<TokenSpec>) -> nat
    decreases t.len(),
{
    if t.len() == 0 {
        0
    } else {
        pipe_count(t.drop_last()) + if t.last() is Pipe {
            1nat
        } else {
            0nat
        }
    }
}

/// The commands among `t`, wired one to the next. The first reads from
/// `next_in`. A command takes the last of `pipes` to write to, and the
/// command behind it reads from that pipe; with no pipe left a command
/// writes to the standard output.
pub open spec fn wire(t: Seq<TokenSpec>, pipes: Seq<PipeEnds>, next_in: Input) -> Seq<CommandSpec>
    decreases t.len(),
{
    if t.len() == 0 {
        Seq::empty()
    } else {
        match t[0] {
            TokenSpec::Pipe => wire(t.drop_first(), pipes, next_in),
            TokenSpec::Command(c) => {
                if pipes.len() == 0 {
                    seq![CommandSpec { input: Some(next_in), out: Some(Output::Stdout), ..c }]
                        + wire(t.drop_first(), pipes, next_in)
                } else {
                    seq![
                        CommandSpec {
                            input: Some(next_in),
                            out: Some(Output::File(pipes.last().1)),
                            ..c
                        },
                    ] + wire(t.drop_first(), pipes.drop_last(), Input::File(pipes.last().0))
                }
            },
        }
    }
}

/// The pipes that `wire` leaves unused.
pub open spec fn pipes_left(t: Seq<TokenSpec>, pipes: Seq<PipeEnds>) -> Seq<PipeEnds>
    decreases t.len(),
{
    if t.len() == 0 {
        pipes
    } else {
        match t[0] {
            TokenSpec::Pipe => pipes_left(t.drop_first(), pipes),
            TokenSpec::Command(c) => {
                if pipes.len() == 0 {
                    pipes_left(t.drop_first(), pipes)
                } else {
                    pipes_left(t.drop_first(), pipes.drop_last())
                }
            },
        }
    }
}

/// Why a line could not be parsed.
#[derive(Debug, Clone, Copy, PartialEq, Eq)]
pub enum ParseError {
    /// The system gave no pipe.
    PipeAllocation,
}

impl ParseError {
    /// The error in words.
    pub fn message(&self) -> (s: String)
        ensures
            s@ == "could not allocate a pipe"@,
    {
        String::from_str("could not allocate a pipe")
    }
}

/// The error type of the `nix` crate.
#[verifier::external_type_specification]
#[verifier::external_body]
pub struct ExNixError(nix::Error);

/// `nix::unistd::pipe` asks the system for a pipe and returns its two
/// descriptors, the read end first, or the system's error. Nothing is
/// claimed of either.
#[verifier::external_body]
fn open_pipe() -> (r: Result<PipeEnds, nix::Error>) {
    nix::unistd::pipe()
}

/// A scanner over one line.
pub struct Parser {
    /// Index of the next character to read.
    pub pos: usize,
    /// The characters of the line.
    pub input: Vec<char>,
    /// The pipes that were opened for the line and are not wired yet.
    pub pipes: Vec<PipeEnds>,
}

impl Parser {
    /// A parser at the start of the line `input_`.
    pub fn new(input_: String) -> (p: Self)
        ensures
            p.pos == 0,
            p.input@ == input_@,
            p.pipes@ == Seq::<PipeEnds>::empty(),
    {
        Self { pos: 0, input: chars_of(input_.as_str()), pipes: Vec::new() }
    }

    /// Only the position has moved, to `pos`.
    pub open spec fn moved_to(&self, before: &Parser, pos: int) -> bool {
        self.pos == pos && self.input@ == before.input@ && self.pipes@ == before.pipes@
    }

    fn next_char(&self) -> (c: char)
        requires
            self.pos < self.input@.len(),
        ensures
            c == self.input@[self.pos as int],
    {
        self.input[self.pos]
    }

    fn eof(&self) -> (b: bool)
        ensures
            b == (self.pos >= self.input@.len()),
    {
        self.pos >= self.input.len()
    }

    fn pipe(&self) -> (b: bool)
        ensures
            b == (self.pos < self.input@.len() && self.input@[self.pos as int] == PIPE),
    {
        !self.eof() && self.next_char() == PIPE
    }

    fn consume_char(&mut self) -> (c: char)
        requires
            old(self).pos < old(self).input@.len(),
        ensures
            c == old(self).input@[old(self).pos as int],
            final(self).moved_to(old(self), old(self).pos + 1),
    {
        let len = self.input.len();
        let cur_char = self.input[self.pos];
        self.pos += 1;
        cur_char
    }

    fn consume_whitespace(&mut self)
        ensures
            final(self).moved_to(old(self), skip_spaces(old(self).input@, old(self).pos as int)),
    {
        while !self.eof() && is_space(self.next_char())
            invariant
                self.input@ == old(self).input@,
                self.pipes@ == old(self).pipes@,
                old(self).pos <= self.pos,
                skip_spaces(self.input@, self.pos as int) == skip_spaces(
                    old(self).input@,
                    old(self).pos as int,
                ),
            decreases self.input@.len() - self.pos,
        {
            self.consume_char();
        }
    }

    fn consume_space_or_pipe(&mut self) -> (word: String)
        ensures
            final(self).moved_to(old(self), word_end(old(self).input@, old(self).pos as int)),
            old(self).pos <= final(self).pos,
            old(self).pos <= old(self).input@.len() ==> word@ == old(self).input@.subrange(
                old(self).pos as int,
                final(self).pos as int,
            ),
            old(self).pos > old(self).input@.len() ==> word@ == Seq::<char>::empty(),
    {
        let mut result: Vec<char> = Vec::new();
        while !self.eof() && !is_space(self.next_char()) && self.next_char() != PIPE
            invariant
                self.input@ == old(self).input@,
                self.pipes@ == old(self).pipes@,
                old(self).pos <= self.pos,
                old(self).pos < old(self).input@.len() ==> self.pos <= self.input@.len(),
                word_end(self.input@, self.pos as int) == word_end(
                    old(self).input@,
                    old(self).pos as int,
                ),
                old(self).pos <= old(self).input@.len() ==> result@ == old(self).input@.subrange(
                    old(self).pos as int,
                    self.pos as int,
                ),
                old(self).pos > old(self).input@.len() ==> result@ == Seq::<char>::empty(),
            decreases self.input@.len() - self.pos,
        {
            let ghost before = result@;
            let c = self.consume_char();
            result.push(c);
            assert(result@ =~= old(self).input@.subrange(old(self).pos as int, self.pos as int));
        }
        string_of(&result)
    }

    /// Reads a command: its program, which begins at the position, and its options.
    fn parse_command(&mut self) -> (c: CommandData)
        requires
            old(self).pos < old(self).input@.len(),
            is_word_char(old(self).input@[old(self).pos as int]),
        ensures
            c@ == command_from(old(self).input@, old(self).pos as int).0,
            final(self).moved_to(
                old(self),
                command_from(old(self).input@, old(self).pos as int).1,
            ),
            final(self).pos <= final(self).input@.len(),
    {
        let ghost s = self.input@;
        let program_ = self.consume_space_or_pipe();
        let ghost start = self.pos as int;
        let mut options_: Vec<String> = Vec::new();
        proof {
            lemma_scan_bounds(s, old(self).pos as int);
            assert(crate::text::texts(options_@) =~= Seq::<Seq<char>>::empty());
        }
        loop
            invariant
                self.input@ == s,
                self.pipes@ == old(self).pipes@,
                0 <= start <= self.pos <= s.len(),
                options_from(s, start).1 == options_from(s, self.pos as int).1,
                options_from(s, start).0 == crate::text::texts(options_@) + options_from(
                    s,
                    self.pos as int,
                ).0,
            ensures
                self.input@ == s,
                self.pipes@ == old(self).pipes@,
                self.pos == options_from(s, start).1,
                self.pos <= s.len(),
                options_from(s, start).0 == crate::text::texts(options_@),
            decreases s.len() - self.pos,
        {
            let ghost from = self.pos as int;
            self.consume_whitespace();
            proof {
                lemma_scan_bounds(s, from);
            }
            if self.eof() || self.pipe() {
                assert(options_from(s, from).0 =~= Seq::<Seq<char>>::empty());
                assert(crate::text::texts(options_@) + Seq::<Seq<char>>::empty()
                    =~= crate::text::texts(options_@));
                break ;
            }
            let ghost p = self.pos as int;
            proof {
                lemma_scan_bounds(s, p);
            }
            let word = self.consume_space_or_pipe();
            proof {
                let rest = options_from(s, self.pos as int);
                assert(options_from(s, from).0 == seq![word@] + rest.0);
                assert(crate::text::texts(options_@.push(word)) =~= crate::text::texts(options_@)
                    + seq![word@]);
                assert((crate::text::texts(options_@) + seq![word@]) + rest.0
                    =~= crate::text::texts(options_@) + (seq![word@] + rest.0));
            }
            options_.push(word);
        }
        CommandData { program: program_, options: options_, input: None, out: None }
    }

    /// Opens a pipe for the pipe character at the position and steps over it.
    fn parse_pipe(&mut self) -> (r: Result<Token, ParseError>)
        requires
            old(self).pos < old(self).input@.len(),
        ensures
            match r {
                Ok(t) => {
                    &&& t@ == TokenSpec::Pipe
                    &&& final(self).pos == old(self).pos + 1
                    &&& final(self).input@ == old(self).input@
                    &&& final(self).pipes@.len() == old(self).pipes@.len() + 1
                    &&& final(self).pipes@.drop_last() == old(self).pipes@
                },
                Err(e) => e == ParseError::PipeAllocation && final(self).moved_to(
                    old(self),
                    old(self).pos as int,
                ),
            },
    {
        match open_pipe() {
            Ok(fds) => {
                self.pipes.push(fds);
                assert(self.pipes@.drop_last() =~= old(self).pipes@);
                self.consume_char();
                Ok(Token::Pipe)
            },
            Err(_) => Err(ParseError::PipeAllocation),
        }
    }

    /// Reads the token at the position: a pipe, for which a pipe is opened,
    /// or a command.
    fn parse_token(&mut self) -> (r: Result<Token, ParseError>)
        requires
            old(self).pos < old(self).input@.len(),
            !is_whitespace(old(self).input@[old(self).pos as int]),
        ensures
            final(self).input@ == old(self).input@,
            match r {
                Ok(t) => {
                    if old(self).input@[old(self).pos as int] == PIPE {
                        &&& t@ == TokenSpec::Pipe
                        &&& final(self).pos == old(self).pos + 1
                        &&& final(self).pipes@.len() == old(self).pipes@.len() + 1
                        &&& final(self).pipes@.drop_last() == old(self).pipes@
                    } else {
                        &&& t@ == TokenSpec::Command(
                            command_from(old(self).input@, old(self).pos as int).0,
                        )
                        &&& final(self).pos == command_from(
                            old(self).input@,
                            old(self).pos as int,
                        ).1
                        &&& final(self).pos <= final(self).input@.len()
                        &&& final(self).pipes@ == old(self).pipes@
                    }
                },
                Err(e) => {
                    &&& e == ParseError::PipeAllocation
                    &&& old(self).input@[old(self).pos as int] == PIPE
                    &&& final(self).moved_to(old(self), old(self).pos as int)
                },
            },
    {
        if self.next_char() == PIPE {
            self.parse_pipe()
        } else {
            Ok(Token::Command(self.parse_command()))
        }
    }

    /// Reads the tokens of the rest of the line and opens a pipe for each
    /// pipe among them. The pipes are added to those of the parser, in the
    /// order of the line.
    ///
    /// With no pipe character in the rest of the line nothing can fail.
    /// When the system gives no pipe the parser keeps the pipes that it has
    /// opened so far.
    pub fn parse_tokens(&mut self) -> (r: Result<Vec<Token>, ParseError>)
        ensures
            final(self).input@ == old(self).input@,
            final(self).pipes@.len() >= old(self).pipes@.len(),
            final(self).pipes@.subrange(0, old(self).pipes@.len() as int) == old(self).pipes@,
            pipe_count(tokens_from(old(self).input@, old(self).pos as int, false)) == 0 ==> r is Ok,
            match r {
                Ok(t) => {
                    &&& token_views(t@) == tokens_from(
                        old(self).input@,
                        old(self).pos as int,
                        false,
                    )
                    &&& final(self).pipes@.len() == old(self).pipes@.len() + pipe_count(
                        token_views(t@),
                    )
                    &&& final(self).pos >= final(self).input@.len()
                },
                Err(e) => e == ParseError::PipeAllocation,
            },
    {
        let ghost s = self.input@;
        let ghost start = self.pos as int;
        let ghost all = tokens_from(s, start, false);
        let mut commands: Vec<Token> = Vec::new();
        let mut after_command = false;
        assert(token_views(commands@) =~= Seq::<TokenSpec>::empty());
        assert(Seq::<TokenSpec>::empty() + all =~= all);
        assert(self.pipes@.subrange(0, old(self).pipes@.len() as int) =~= old(self).pipes@);
        loop
            invariant
                self.input@ == s,
                s == old(self).input@,
                start == old(self).pos,
                all == tokens_from(s, start, false),
                start <= self.pos,
                all == token_views(commands@) + tokens_from(s, self.pos as int, after_command),
                self.pipes@.len() == old(self).pipes@.len() + pipe_count(token_views(commands@)),
                self.pipes@.subrange(0, old(self).pipes@.len() as int) == old(self).pipes@,
            ensures
                self.input@ == s,
                all == token_views(commands@) + lacking(after_command),
                self.pipes@.len() == old(self).pipes@.len() + pipe_count(token_views(commands@)),
                self.pipes@.subrange(0, old(self).pipes@.len() as int) == old(self).pipes@,
                self.pos >= s.len(),
            decreases s.len() - self.pos,
        {
            let ghost from = self.pos as int;
            let ghost done = token_views(commands@);
            self.consume_whitespace();
            proof {
                lemma_scan_bounds(s, from);
            }
            if self.eof() {
                break ;
            }
            let ghost p = self.pos as int;
            let at_pipe = self.pipe();
            if at_pipe && !after_command {
                commands.push(Token::Command(empty()));
            }
            let ghost with_lacking = token_views(commands@);
            proof {
                assert(with_lacking =~= done + if at_pipe {
                    lacking(after_command)
                } else {
                    Seq::<TokenSpec>::empty()
                });
                lemma_pipe_count_concat(done, lacking(after_command));
                assert(pipe_count(lacking(after_command)) == 0) by {
                    reveal_with_fuel(pipe_count, 2);
                }
            }
            let ghost pipes_before = self.pipes@;
            match self.parse_token() {
                Ok(t) => {
                    proof {
                        assert(token_views(commands@.push(t)) =~= with_lacking.push(t@));
                        assert(with_lacking.push(t@).drop_last() =~= with_lacking);
                        if at_pipe {
                            assert(self.pipes@.subrange(0, old(self).pipes@.len() as int)
                                =~= pipes_before.subrange(0, old(self).pipes@.len() as int));
                            assert(done + (lacking(after_command) + seq![TokenSpec::Pipe]
                                + tokens_from(s, p + 1, false)) =~= with_lacking.push(t@)
                                + tokens_from(s, p + 1, false));
                        } else {
                            lemma_scan_bounds(s, p);
                            lemma_options_bounds(s, word_end(s, p));
                            assert(done + (seq![TokenSpec::Command(command_from(s, p).0)]
                                + tokens_from(s, command_from(s, p).1, true))
                                =~= with_lacking.push(t@) + tokens_from(
                                s,
                                command_from(s, p).1,
                                true,
                            ));
                        }
                    }
                    commands.push(t);
                    after_command = !at_pipe;
                },
                Err(e) => {
                    proof {
                        lemma_pipe_count_concat(
                            token_views(commands@),
                            tokens_from(s, from, after_command),
                        );
                        lemma_pipe_count_concat(
                            done,
                            tokens_from(s, from, after_command),
                        );
                        let rest = tokens_from(s, p + 1, false);
                        lemma_pipe_count_concat(
                            lacking(after_command) + seq![TokenSpec::Pipe],
                            rest,
                        );
                        lemma_pipe_count_concat(lacking(after_command), seq![TokenSpec::Pipe]);
                        assert(pipe_count(seq![TokenSpec::Pipe]) == 1) by {
                            reveal_with_fuel(pipe_count, 2);
                            assert(seq![TokenSpec::Pipe].drop_last() =~= Seq::<TokenSpec>::empty());
                        }
                    }
                    return Err(e);
                },
            }
        }
        if !after_command {
            let ghost done = token_views(commands@);
            commands.push(Token::Command(empty()));
            proof {
                assert(token_views(commands@) =~= done + lacking(after_command));
                assert(token_views(commands@).drop_last() =~= done);
            }
        } else {
            assert(token_views(commands@) + lacking(after_command) =~= token_views(commands@));
        }
        Ok(commands)
    }

    /// Takes the tokens one by one from the end of `commands`, which holds
    /// them last to first, and wires the commands among them.
    fn set_pipe(&mut self, next_in: Input, commands: Vec<Token>) -> (r: Vec<CommandData>)
        ensures
            command_views(r@) == wire(token_views(commands@).reverse(), old(self).pipes@, next_in),
            final(self).pipes@ == pipes_left(token_views(commands@).reverse(), old(self).pipes@),
            final(self).pos == old(self).pos,
            final(self).input@ == old(self).input@,
        decreases commands@.len(),
    {
        let mut commands = commands;
        let ghost t = token_views(commands@).reverse();
        if commands.len() == 0 {
            let r: Vec<CommandData> = Vec::new();
            assert(command_views(r@) =~= Seq::<CommandSpec>::empty());
            return r;
        }
        let ghost all = commands@;
        let token = commands.pop().unwrap();
        proof {
            assert(t[0] == token@);
            assert(token_views(commands@).reverse() =~= t.drop_first());
        }
        match token {
            Token::Command(c) => {
                let mut c = c;
                let after = if self.pipes.len() == 0 {
                    c.set_input(next_in);
                    c.set_out(Output::Stdout);
                    next_in
                } else {
                    let fds = self.pipes.pop().unwrap();
                    c.set_input(next_in);
                    c.set_out(Output::File(fds.1));
                    Input::File(fds.0)
                };
                let mut ini: Vec<CommandData> = Vec::new();
                ini.push(c);
                let mut rest = self.set_pipe(after, commands);
                proof {
                    assert(command_views(ini@ + rest@) =~= seq![c@] + command_views(rest@));
                }
                ini.append(&mut rest);
                ini
            },
            Token::Pipe => self.set_pipe(next_in, commands),
        }
    }

    /// Wires the commands among `commands` into a pipeline that reads from
    /// the standard input, with the pipes of the parser.
    pub fn build_pipes(&mut self, commands: Vec<Token>) -> (r: Vec<CommandData>)
        ensures
            command_views(r@) == wire(token_views(commands@), old(self).pipes@, Input::Stdin),
            final(self).pipes@ == pipes_left(token_views(commands@), old(self).pipes@),
            final(self).pos == old(self).pos,
            final(self).input@ == old(self).input@,
    {
        let reversed = reverse(commands);
        proof {
            assert(token_views(reversed@).reverse() =~= token_views(commands@));
        }
        self.set_pipe(Input::Stdin, reversed)
    }

    /// Reads the rest of the line and wires its commands into a pipeline.
    /// All pipes are opened before any command is wired.
    ///
    /// With no pipe character in the rest of the line nothing can fail.
    /// When the system gives no pipe nothing is wired, and the parser keeps
    /// the pipes that it has opened so far.
    pub fn parse(&mut self) -> (r: Result<Vec<CommandData>, ParseError>)
        ensures
            final(self).input@ == old(self).input@,
            pipe_count(tokens_from(old(self).input@, old(self).pos as int, false)) == 0 ==> r is Ok,
            match r {
                Ok(commands) => exists|pipes: Seq<PipeEnds>|
                    {
                        &&& #[trigger] opened(
                            pipes,
                            old(self).pipes@,
                            tokens_from(old(self).input@, old(self).pos as int, false),
                        )
                        &&& command_views(commands@) == wire(
                            tokens_from(old(self).input@, old(self).pos as int, false),
                            pipes,
                            Input::Stdin,
                        )
                        &&& final(self).pipes@ == pipes_left(
                            tokens_from(old(self).input@, old(self).pos as int, false),
                            pipes,
                        )
                        &&& old(self).pipes@.len() == 0 ==> final(self).pipes@.len() == 0
                            && joined_by(command_views(commands@), pipes, Input::Stdin)
                    },
                Err(e) => {
                    &&& e == ParseError::PipeAllocation
                    &&& final(self).pipes@.len() >= old(self).pipes@.len()
                    &&& final(self).pipes@.subrange(0, old(self).pipes@.len() as int) == old(
                        self,
                    ).pipes@
                },
            },
    {
        match self.parse_tokens() {
            Ok(tokens) => {
                let ghost pipes = self.pipes@;
                let commands = self.build_pipes(tokens);
                proof {
                    if old(self).pipes@.len() == 0 {
                        lemma_tokens_take_turns(old(self).input@, old(self).pos as int, false);
                        lemma_pipeline_wiring(
                            tokens_from(old(self).input@, old(self).pos as int, false),
                            pipes,
                            Input::Stdin,
                        );
                    }
                }
                assert(opened(
                    pipes,
                    old(self).pipes@,
                    tokens_from(old(self).input@, old(self).pos as int, false),
                ));
                Ok(commands)
            },
            Err(e) => Err(e),
        }
    }
}

/// `pipes` are the pipes `before` and, behind them, one more for each pipe
/// among the tokens `t`.
pub open spec fn opened(pipes: Seq<PipeEnds>, before: Seq<PipeEnds>, t: Seq<TokenSpec>) -> bool {
    &&& pipes.len() == before.len() + pipe_count(t)
    &&& pipes.subrange(0, before.len() as int) == before
}

/// The pipes among two lists of tokens are those of the one and those of the other.
pub proof fn lemma_pipe_count_concat(a: Seq<TokenSpec>, b: Seq<TokenSpec>)
    ensures
        pipe_count(a + b) == pipe_count(a) + pipe_count(b),
    decreases b.len(),
{
    if b.len() == 0 {
        assert(a + b =~= a);
    } else {
        lemma_pipe_count_concat(a, b.drop_last());
        assert((a + b).drop_last() =~= a + b.drop_last());
    }
}

/// A command without a program.
fn empty() -> (c: CommandData)
    ensures
        c@ == empty_command(),
{
    let c = CommandData::new(String::new(), Vec::new());
    assert(c@.options =~= Seq::<Seq<char>>::empty());
    c
}

/// The tokens of `v`, last to first.
fn reverse(v: Vec<Token>) -> (r: Vec<Token>)
    ensures
        r@ == v@.reverse(),
{
    let mut v = v;
    let ghost all = v@;
    let mut r: Vec<Token> = Vec::new();
    while v.len() > 0
        invariant
            v@.len() + r@.len() == all.len(),
            v@ == all.subrange(0, v@.len() as int),
            forall|j: int| 0 <= j < r@.len() ==> r@[j] == all[all.len() - 1 - j],
        decreases v@.len(),
    {
        let t = v.pop().unwrap();
        r.push(t);
    }
    assert(r@ =~= all.reverse());
    r
}

/// Commands and pipes take turns in `t`, and the last token is a command.
/// After a command a pipe is due, or the end; else a command is due.
pub open spec fn takes_turns(t: Seq<TokenSpec>, after_command: bool) -> bool
    decreases t.len(),
{
    if t.len() == 0 {
        after_command
    } else if after_command {
        t[0] is Pipe && takes_turns(t.drop_first(), false)
    } else {
        t[0] is Command && takes_turns(t.drop_first(), true)
    }
}

/// The commands among `t`, in order.
pub open spec fn commands_of(t: Seq<TokenSpec>) -> Seq<CommandSpec>
    decreases t.len(),
{
    if t.len() == 0 {
        Seq::empty()
    } else {
        match t[0] {
            TokenSpec::Command(c) => seq![c] + commands_of(t.drop_first()),
            TokenSpec::Pipe => commands_of(t.drop_first()),
        }
    }
}

/// The commands `w` form a pipeline through `pipes`: there is one pipe
/// fewer than there are commands; the first command reads from `first_in`
/// and the last writes to the standard output; and each other boundary is
/// one pipe, into which the command before it writes and from which the
/// command behind it reads. The pipe that was opened last is the first
/// boundary.
pub open spec fn joined_by(w: Seq<CommandSpec>, pipes: Seq<PipeEnds>, first_in: Input) -> bool {
    &&& w.len() == pipes.len() + 1
    &&& w[0].input == Some(first_in)
    &&& w.last().out == Some(Output::Stdout)
    &&& forall|i: int|
        0 <= i < pipes.len() ==> {
            &&& (#[trigger] w[i]).out == Some(Output::File(pipes[pipes.len() - 1 - i].1))
            &&& w[i + 1].input == Some(Input::File(pipes[pipes.len() - 1 - i].0))
        }
}

/// The options end where a pipe character stands or the line ends.
pub proof fn lemma_options_end(s: Seq<char>, from: int)
    requires
        0 <= from,
    ensures
        ({
            let q = options_from(s, from).1;
            q >= s.len() || (s[q] == PIPE && skip_spaces(s, q) == q)
        }),
    decreases s.len() - from,
{
    lemma_scan_bounds(s, from);
    let p = skip_spaces(s, from);
    if p < s.len() && is_word_char(s[p]) {
        lemma_scan_bounds(s, p);
        lemma_options_end(s, word_end(s, p));
    }
}

/// In the tokens of a line commands and pipes take turns, from a command
/// to a command: between two pipes, before a pipe at the start and behind
/// one at the end there is a command.
pub proof fn lemma_tokens_take_turns(s: Seq<char>, from: int, after_command: bool)
    requires
        0 <= from,
        after_command ==> skip_spaces(s, from) >= s.len() || (skip_spaces(s, from) >= 0
            && s[skip_spaces(s, from)] == PIPE),
    ensures
        takes_turns(tokens_from(s, from, after_command), after_command),
    decreases s.len() - from,
{
    lemma_scan_bounds(s, from);
    let p = skip_spaces(s, from);
    let t = tokens_from(s, from, after_command);
    if p >= s.len() {
        if !after_command {
            assert(t.drop_first() =~= Seq::<TokenSpec>::empty());
            assert(takes_turns(t.drop_first(), true));
        }
    } else if s[p] == PIPE {
        let rest = tokens_from(s, p + 1, false);
        lemma_tokens_take_turns(s, p + 1, false);
        if after_command {
            assert(t =~= seq![TokenSpec::Pipe] + rest);
            assert(t.drop_first() =~= rest);
        } else {
            assert(t =~= seq![TokenSpec::Command(empty_command()), TokenSpec::Pipe] + rest);
            let t1 = t.drop_first();
            assert(t1 =~= seq![TokenSpec::Pipe] + rest);
            assert(t1.drop_first() =~= rest);
            assert(takes_turns(t1, true));
        }
    } else {
        lemma_scan_bounds(s, p);
        let e = word_end(s, p);
        lemma_options_bounds(s, e);
        lemma_options_end(s, e);
        let q = command_from(s, p).1;
        lemma_tokens_take_turns(s, q, true);
        assert(t =~= seq![TokenSpec::Command(command_from(s, p).0)] + tokens_from(s, q, true));
        assert(t.drop_first() =~= tokens_from(s, q, true));
    }
}

/// The pipes among tokens are those behind the first token, and the first
/// if it is one.
pub proof fn lemma_pipe_count_first(t: Seq<TokenSpec>)
    requires
        t.len() > 0,
    ensures
        pipe_count(t) == pipe_count(t.drop_first()) + if t[0] is Pipe {
            1nat
        } else {
            0nat
        },
{
    let head = seq![t[0]];
    assert(t =~= head + t.drop_first());
    lemma_pipe_count_concat(head, t.drop_first());
    assert(head.drop_last() =~= Seq::<TokenSpec>::empty());
    assert(pipe_count(head) == pipe_count(head.drop_last()) + if t[0] is Pipe {
        1nat
    } else {
        0nat
    });
}

/// A pipeline of tokens is wired through its pipes: with as many pipes as
/// there are pipe tokens, the commands come out in their order, joined by
/// the pipes, and no pipe is left.
pub proof fn lemma_pipeline_wiring(t: Seq<TokenSpec>, pipes: Seq<PipeEnds>, next_in: Input)
    requires
        takes_turns(t, false),
        pipes.len() == pipe_count(t),
    ensures
        joined_by(wire(t, pipes, next_in), pipes, next_in),
        pipes_left(t, pipes) == Seq::<PipeEnds>::empty(),
        wire(t, pipes, next_in).len() == commands_of(t).len(),
        forall|i: int|
            0 <= i < commands_of(t).len() ==> {
                &&& (#[trigger] wire(t, pipes, next_in)[i]).program == commands_of(t)[i].program
                &&& wire(t, pipes, next_in)[i].options == commands_of(t)[i].options
            },
    decreases t.len(),
{
    let w = wire(t, pipes, next_in);
    assert(t.len() > 0 && t[0] is Command);
    let c = t[0]->Command_0;
    let rest = t.drop_first();
    assert(takes_turns(rest, true));
    lemma_pipe_count_first(t);
    if rest.len() == 0 {
        assert(pipe_count(rest) == 0);
        assert(pipes =~= Seq::<PipeEnds>::empty());
        assert(wire(rest, pipes, next_in) =~= Seq::<CommandSpec>::empty());
        assert(commands_of(rest) =~= Seq::<CommandSpec>::empty());
        assert(pipes_left(rest, pipes) == pipes);
        let head = CommandSpec { input: Some(next_in), out: Some(Output::Stdout), ..c };
        assert(w =~= seq![head]);
        assert(commands_of(t) =~= seq![c]);
    } else {
        assert(rest[0] is Pipe);
        let rest2 = rest.drop_first();
        assert(takes_turns(rest2, false));
        lemma_pipe_count_first(rest);
        assert(pipes.len() == pipe_count(rest2) + 1);
        let inner = pipes.drop_last();
        let inner_in = Input::File(pipes.last().0);
        lemma_pipeline_wiring(rest2, inner, inner_in);
        let w2 = wire(rest2, inner, inner_in);
        assert(wire(rest, inner, inner_in) == w2);
        assert(commands_of(rest) == commands_of(rest2));
        assert(pipes_left(rest, inner) == pipes_left(rest2, inner));
        assert(pipes_left(t, pipes) == pipes_left(rest, inner));
        let head = CommandSpec {
            input: Some(next_in),
            out: Some(Output::File(pipes.last().1)),
            ..c
        };
        assert(w =~= seq![head] + w2);
        assert(commands_of(t) =~= seq![c] + commands_of(rest2));
        lemma_joined_step(w, w2, head, pipes, next_in);
        assert forall|i: int| 0 <= i < commands_of(t).len() implies {
            &&& (#[trigger] w[i]).program == commands_of(t)[i].program
            &&& w[i].options == commands_of(t)[i].options
        } by {
            if i > 0 {
                assert(w[i] == w2[i - 1]);
                assert(commands_of(t)[i] == commands_of(rest2)[i - 1]);
            }
        }
    }
}

/// A pipeline grows at its front: a command that writes into the last of
/// `pipes`, before a pipeline that reads from it and goes through the
/// pipes before it, makes a pipeline through all of `pipes`.
proof fn lemma_joined_step(
    w: Seq<CommandSpec>,
    w2: Seq<CommandSpec>,
    head: CommandSpec,
    pipes: Seq<PipeEnds>,
    next_in: Input,
)
    requires
        pipes.len() > 0,
        w == seq![head] + w2,
        head.input == Some(next_in),
        head.out == Some(Output::File(pipes.last().1)),
        joined_by(w2, pipes.drop_last(), Input::File(pipes.last().0)),
    ensures
        joined_by(w, pipes, next_in),
{
    let inner = pipes.drop_last();
    assert(w.last() == w2.last());
    assert forall|i: int| 0 <= i < pipes.len() implies {
        &&& (#[trigger] w[i]).out == Some(Output::File(pipes[pipes.len() - 1 - i].1))
        &&& w[i + 1].input == Some(Input::File(pipes[pipes.len() - 1 - i].0))
    } by {
        if i > 0 {
            assert(w[i] == w2[i - 1]);
            assert(w[i + 1] == w2[i]);
            assert(inner[inner.len() - 1 - (i - 1)] == pipes[pipes.len() - 1 - i]);
        } else {
            assert(w[1] == w2[0]);
        }
    }
}

/// How often the pipe character stands in `s` from `from` on.
pub open spec fn pipe_chars(s: Seq<char>, from: int) -> nat
    decreases s.len() - from,
{
    if from < 0 || from >= s.len() {
        0
    } else {
        pipe_chars(s, from + 1) + if s[from] == PIPE {
            1nat
        } else {
            0nat
        }
    }
}

/// Whitespace holds no pipe character.
pub proof fn lemma_spaces_hold_no_pipe(s: Seq<char>, from: int)
    requires
        0 <= from,
    ensures
        pipe_chars(s, from) == pipe_chars(s, skip_spaces(s, from)),
    decreases s.len() - from,
{
    if from < s.len() && is_whitespace(s[from]) {
        lemma_spaces_hold_no_pipe(s, from + 1);
    }
}

/// A word holds no pipe character.
pub proof fn lemma_word_holds_no_pipe(s: Seq<char>, from: int)
    requires
        0 <= from,
    ensures
        pipe_chars(s, from) == pipe_chars(s, word_end(s, from)),
    decreases s.len() - from,
{
    if from < s.len() && is_word_char(s[from]) {
        lemma_word_holds_no_pipe(s, from + 1);
    }
}

/// The options of a command hold no pipe character.
pub proof fn lemma_options_hold_no_pipe(s: Seq<char>, from: int)
    requires
        0 <= from,
    ensures
        pipe_chars(s, from) == pipe_chars(s, options_from(s, from).1),
    decreases s.len() - from,
{
    lemma_scan_bounds(s, from);
    lemma_spaces_hold_no_pipe(s, from);
    let p = skip_spaces(s, from);
    if p < s.len() && is_word_char(s[p]) {
        lemma_scan_bounds(s, p);
        lemma_word_holds_no_pipe(s, p);
        lemma_options_hold_no_pipe(s, word_end(s, p));
    }
}

/// Every pipe character of the line is a pipe token, wherever it stands,
/// and there is no other pipe token.
pub proof fn lemma_pipe_tokens(s: Seq<char>, from: int, after_command: bool)
    requires
        0 <= from,
    ensures
        pipe_count(tokens_from(s, from, after_command)) == pipe_chars(s, from),
    decreases s.len() - from,
{
    lemma_scan_bounds(s, from);
    lemma_spaces_hold_no_pipe(s, from);
    let p = skip_spaces(s, from);
    let t = tokens_from(s, from, after_command);
    assert(pipe_count(lacking(after_command)) == 0) by {
        reveal_with_fuel(pipe_count, 2);
    }
    if p >= s.len() {
    } else if s[p] == PIPE {
        let rest = tokens_from(s, p + 1, false);
        lemma_pipe_tokens(s, p + 1, false);
        lemma_pipe_count_concat(lacking(after_command) + seq![TokenSpec::Pipe], rest);
        lemma_pipe_count_concat(lacking(after_command), seq![TokenSpec::Pipe]);
        assert(pipe_count(seq![TokenSpec::Pipe]) == 1) by {
            reveal_with_fuel(pipe_count, 2);
            assert(seq![TokenSpec::Pipe].drop_last() =~= Seq::<TokenSpec>::empty());
        }
    } else {
        lemma_scan_bounds(s, p);
        let e = word_end(s, p);
        lemma_options_bounds(s, e);
        lemma_word_holds_no_pipe(s, p);
        lemma_options_hold_no_pipe(s, e);
        let q = command_from(s, p).1;
        lemma_pipe_tokens(s, q, true);
        let head = seq![TokenSpec::Command(command_from(s, p).0)];
        lemma_pipe_count_concat(head, tokens_from(s, q, true));
        assert(pipe_count(head) == 0) by {
            reveal_with_fuel(pipe_count, 2);
            assert(head.drop_last() =~= Seq::<TokenSpec>::empty());
        }
    }
}

/// Whatever the line, its commands form a pipeline: with one pipe for
/// each pipe character, the first command reads from the standard input,
/// the last writes to the standard output, each pipe joins two neighbours,
/// and no pipe is left over.
pub proof fn lemma_line_is_pipeline(s: Seq<char>, pipes: Seq<PipeEnds>)
    requires
        pipes.len() == pipe_count(tokens(s)),
    ensures
        joined_by(wire(tokens(s), pipes, Input::Stdin), pipes, Input::Stdin),
        pipes_left(tokens(s), pipes) == Seq::<PipeEnds>::empty(),
{
    lemma_tokens_take_turns(s, 0, false);
    lemma_pipeline_wiring(tokens(s), pipes, Input::Stdin);
}

} // verus!
