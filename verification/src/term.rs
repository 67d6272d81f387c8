//! A plain terminal line: a prompt, a line and a cursor, without
//! completion. Every operation returns what is to be written to the
//! terminal for it.

use vstd::prelude::*;
use crate::readline::editor::{clear_screen_code, column, tab_shift};
use crate::readline::terminal;
use crate::readline::terminal::control_sequence;

verus! {

/// The sequence that clears what the terminal shows behind the cursor.
pub open spec fn clear_code() -> Seq<char> {
    seq!['\x1b', '[', 'J']
}

/// What a terminal line holds, as mathematical values.
pub struct TermState {
    /// Index of the character under the cursor.
    pub pos: nat,
    pub prompt: Seq<char>,
    pub line: Seq<char>,
}

impl TermState {
    /// The cursor stands at the start of the line.
    pub open spec fn is_start(self) -> bool {
        self.pos < 1
    }

    /// The cursor stands behind the last character of the line.
    pub open spec fn is_last(self) -> bool {
        self.pos >= self.line.len()
    }

    /// The cursor on the character with index `pos`, and the move to its column.
    pub open spec fn go_to(self, pos: nat) -> (TermState, Seq<char>) {
        (TermState { pos: pos, ..self }, control_sequence(column(self.prompt, pos), 'G'))
    }

    /// The line with `s` put in at the cursor.
    pub open spec fn inserted(self, s: Seq<char>) -> Seq<char> {
        self.line.subrange(0, self.pos as int) + s + self.line.subrange(
            self.pos as int,
            self.line.len() as int,
        )
    }

    /// `s` is put in at the cursor, which then stands behind it. At the end
    /// of the line only `s` is drawn; elsewhere the line is drawn again from
    /// where `s` begins.
    pub open spec fn put(self, s: Seq<char>) -> (TermState, Seq<char>) {
        let line = self.inserted(s);
        let after = TermState { pos: self.pos + s.len(), line: line, ..self };
        if self.is_last() {
            (after, s)
        } else {
            (
                after,
                clear_code() + line.subrange(self.pos as int, line.len() as int)
                    + after.go_to(after.pos).1,
            )
        }
    }

    /// The line without the `n` characters left of the cursor.
    pub open spec fn removed(self, n: nat) -> Seq<char> {
        self.line.subrange(0, self.pos - n) + self.line.subrange(
            self.pos as int,
            self.line.len() as int,
        )
    }

    /// The `n` characters left of the cursor are removed and the cursor
    /// moves onto the place of the first of them. Where characters follow,
    /// the rest of the line is drawn again. A tab among the removed
    /// characters makes the cursor move further left on the screen. At the
    /// start of the line nothing happens.
    pub open spec fn delete(self, n: nat) -> (TermState, Seq<char>) {
        if self.is_start() {
            (self, Seq::empty())
        } else {
            let shift = match tab_shift(
                self.line,
                self.line.subrange(self.pos - n, self.pos as int),
            ) {
                Some(k) => control_sequence(k, 'D'),
                None => Seq::empty(),
            };
            let cut = TermState { pos: (self.pos - n) as nat, line: self.removed(n), ..self };
            let out = shift + control_sequence(n, 'D') + clear_code();
            if cut.is_last() {
                (cut, out)
            } else {
                (
                    cut,
                    out + cut.line.subrange(cut.pos as int, cut.line.len() as int) + cut.go_to(
                        cut.pos,
                    ).1,
                )
            }
        }
    }

    /// The line is emptied and wiped from the screen; the cursor keeps its index.
    pub open spec fn clear_line(self) -> (TermState, Seq<char>) {
        (TermState { line: Seq::empty(), ..self }, self.go_to(0).1 + clear_code())
    }

    /// The line becomes `s`, which is drawn in place of the old one.
    pub open spec fn replace(self, s: Seq<char>) -> (TermState, Seq<char>) {
        (TermState { line: s, ..self }, self.clear_line().1 + s)
    }

    /// The cursor moves `n` characters to the left, unless it stands at the start.
    pub open spec fn move_left(self, n: nat) -> (TermState, Seq<char>) {
        if self.is_start() {
            (self, Seq::empty())
        } else {
            (TermState { pos: (self.pos - n) as nat, ..self }, control_sequence(n, 'D'))
        }
    }

    /// The cursor moves `n` characters to the right, unless it stands at the end.
    pub open spec fn move_right(self, n: nat) -> (TermState, Seq<char>) {
        if self.is_last() {
            (self, Seq::empty())
        } else {
            (TermState { pos: self.pos + n, ..self }, control_sequence(n, 'C'))
        }
    }
}

/// Text that is put in and then deleted again leaves the line and the
/// cursor as they were.
pub proof fn lemma_put_then_delete(t: TermState, s: Seq<char>)
    requires
        t.pos <= t.line.len(),
    ensures
        t.put(s).0.delete(s.len()).0 == t,
{
    let mid = t.put(s).0;
    if s.len() == 0 {
        assert(mid.line =~= t.line);
        if !mid.is_start() {
            assert(mid.removed(0) =~= t.line);
        }
    } else {
        assert(mid.removed(s.len()) =~= t.line);
    }
}

/// What was written is `out`.
pub open spec fn wrote(r: Result<String, std::io::Error>, out: Seq<char>) -> bool {
    r matches Ok(s) && s@ == out
}

/// A prompt, the line behind it, and the cursor in the line.
pub struct Term {
    /// Index of the character under the cursor.
    pub pos: usize,
    pub prompt: String,
    pub line: String,
}

impl View for Term {
    type V = TermState;

    open spec fn view(&self) -> TermState {
        TermState { pos: self.pos as nat, prompt: self.prompt@, line: self.line@ }
    }
}

impl Term {
    /// An empty line behind `prompt`.
    pub fn new(prompt: String) -> (t: Term)
        ensures
            t@ == (TermState { pos: 0, prompt: prompt@, line: Seq::empty() }),
    {
        Term { pos: 0, prompt: prompt, line: String::new() }
    }

    /// Empties the line and puts the cursor at its start. Nothing is drawn.
    pub fn reset(&mut self)
        ensures
            final(self)@ == (TermState { pos: 0, line: Seq::empty(), ..old(self)@ }),
    {
        self.pos = 0;
        self.line = String::new();
    }

    /// Puts `s` into the line at the cursor.
    pub fn put(&mut self, s: String) -> (r: Result<String, std::io::Error>)
        requires
            old(self)@.pos <= old(self)@.line.len(),
        ensures
            final(self)@ == old(self)@.put(s@).0,
            wrote(r, old(self)@.put(s@).1),
    {
        let len = self.line.as_str().unicode_len();
        let n = s.as_str().unicode_len();
        let mut line = String::from_str(self.line.as_str().substring_char(0, self.pos));
        line.append(s.as_str());
        line.append(self.line.as_str().substring_char(self.pos, len));
        let new_len = line.as_str().unicode_len();
        if !self.is_last() {
            let old_pos = self.pos;
            self.line = line;
            let mut out = String::from_str("\x1b[J");
            proof {
                reveal_strlit("\x1b[J");
            }
            assert("\x1b[J"@ =~= clear_code());
            out.append(self.line.as_str().substring_char(old_pos, new_len));
            out.append(self.go_to(old_pos + n).as_str());
            Ok(out)
        } else {
            self.line = line;
            self.write_str(s.as_str())
        }
    }

    /// Removes the `n` characters left of the cursor. At the start of the
    /// line there is nothing to remove.
    pub fn delete(&mut self, n: usize) -> (r: Result<String, std::io::Error>)
        requires
            old(self)@.pos <= old(self)@.line.len(),
            old(self).pos >= 1 ==> n <= old(self).pos,
        ensures
            final(self)@ == old(self)@.delete(n as nat).0,
            wrote(r, old(self)@.delete(n as nat).1),
    {
        if self.is_start() {
            return Ok(String::new());
        }
        let len = self.line.as_str().unicode_len();
        let mut out = String::new();
        match tab_shift_of(self.line.as_str(), self.pos - n, self.pos) {
            Some(k) => {
                out.append(terminal::move_left(k).as_str());
            },
            None => {},
        }
        let mut line = String::from_str(self.line.as_str().substring_char(0, self.pos - n));
        line.append(self.line.as_str().substring_char(self.pos, len));
        self.line = line;
        let new_len = self.line.as_str().unicode_len();

        self.pos -= n;
        out.append(terminal::move_left(n).as_str());
        proof {
            reveal_strlit("\x1b[J");
        }
        assert("\x1b[J"@ =~= clear_code());
        out.append("\x1b[J");
        if !self.is_last() {
            let pos = self.pos;
            out.append(self.line.as_str().substring_char(pos, new_len));
            out.append(self.go_to(pos).as_str());
        }
        assert(out@ =~= old(self)@.delete(n as nat).1);
        Ok(out)
    }

    /// Draws the line.
    pub fn write_line(&mut self) -> (r: Result<String, std::io::Error>)
        ensures
            final(self)@ == old(self)@,
            wrote(r, old(self)@.line),
    {
        Ok(self.line.clone())
    }

    /// Draws the prompt.
    pub fn write_prompt(&mut self) -> (r: Result<String, std::io::Error>)
        ensures
            final(self)@ == old(self)@,
            wrote(r, old(self)@.prompt),
    {
        Ok(self.prompt.clone())
    }

    /// Draws `s` and moves the cursor behind it.
    pub fn write_str(&mut self, s: &str) -> (r: Result<String, std::io::Error>)
        requires
            old(self).pos + s@.len() <= usize::MAX,
        ensures
            final(self)@ == (TermState { pos: old(self)@.pos + s@.len(), ..old(self)@ }),
            wrote(r, s@),
    {
        self.pos += s.unicode_len();
        Ok(String::from_str(s))
    }

    /// Brings the terminal's cursor back to the cursor in the line.
    pub fn come_back(&mut self) -> (r: Result<String, std::io::Error>)
        ensures
            final(self)@ == old(self)@,
            wrote(r, old(self)@.go_to(old(self)@.pos).1),
    {
        let pos = self.pos;
        Ok(self.go_to(pos))
    }

    /// Puts `s` in the place of the line. The cursor keeps its index.
    pub fn replace(&mut self, s: &str) -> (r: Result<String, std::io::Error>)
        ensures
            final(self)@ == old(self)@.replace(s@).0,
            wrote(r, old(self)@.replace(s@).1),
    {
        let mut out = match self.clear_line() {
            Ok(out) => out,
            Err(e) => {
                return Err(e);
            },
        };
        self.line = String::from_str(s);
        out.append(s);
        Ok(out)
    }

    /// Draws a line feed.
    pub fn new_line(&mut self) -> (r: Result<String, std::io::Error>)
        ensures
            final(self)@ == old(self)@,
            wrote(r, seq!['\n']),
    {
        proof {
            reveal_strlit("\n");
        }
        assert("\n"@ =~= seq!['\n']);
        Ok(String::from_str("\n"))
    }

    /// Empties the line and wipes it from the screen. The cursor keeps its index.
    pub fn clear_line(&mut self) -> (r: Result<String, std::io::Error>)
        ensures
            final(self)@ == old(self)@.clear_line().0,
            wrote(r, old(self)@.clear_line().1),
    {
        self.line = String::new();
        let old_pos = self.pos;
        let mut out = self.go_to(0);
        proof {
            reveal_strlit("\x1b[J");
        }
        assert("\x1b[J"@ =~= clear_code());
        out.append("\x1b[J");
        self.pos = old_pos;
        Ok(out)
    }

    /// Clears the screen and draws the prompt in its first line; the cursor
    /// goes to the start of the line.
    pub fn clear_screen(&mut self) -> (r: Result<String, std::io::Error>)
        ensures
            final(self)@ == (TermState { pos: 0, ..old(self)@ }),
            wrote(r, clear_screen_code() + old(self)@.prompt),
    {
        self.pos = 0;
        proof {
            reveal_strlit("\x1b[2J\x1b[1;1H");
        }
        assert("\x1b[2J\x1b[1;1H"@ =~= clear_screen_code());
        let mut out = String::from_str("\x1b[2J\x1b[1;1H");
        out.append(self.prompt.as_str());
        Ok(out)
    }

    /// Clears what the terminal shows behind the cursor.
    pub fn clear_to_screen_end(&self) -> (r: Result<String, std::io::Error>)
        ensures
            wrote(r, clear_code()),
    {
        proof {
            reveal_strlit("\x1b[J");
        }
        assert("\x1b[J"@ =~= clear_code());
        Ok(String::from_str("\x1b[J"))
    }

    /// Moves the cursor `n` characters to the left, unless it stands at the start.
    pub fn move_left(&mut self, n: usize) -> (r: Result<String, std::io::Error>)
        requires
            old(self).pos >= 1 ==> n <= old(self).pos,
        ensures
            final(self)@ == old(self)@.move_left(n as nat).0,
            wrote(r, old(self)@.move_left(n as nat).1),
    {
        if self.is_start() {
            return Ok(String::new());
        }
        self.pos -= n;
        Ok(terminal::move_left(n))
    }

    /// Moves the terminal's cursor `n` columns to the left; the cursor in
    /// the line stays.
    pub fn move_left_only(&mut self, n: usize) -> (r: Result<String, std::io::Error>)
        ensures
            final(self)@ == old(self)@,
            wrote(r, control_sequence(n as nat, 'D')),
    {
        Ok(terminal::move_left(n))
    }

    /// Moves the cursor `n` characters to the right, unless it stands at the end.
    pub fn move_right(&mut self, n: usize) -> (r: Result<String, std::io::Error>)
        requires
            old(self)@.pos < old(self)@.line.len() ==> old(self).pos + n <= usize::MAX,
        ensures
            final(self)@ == old(self)@.move_right(n as nat).0,
            wrote(r, old(self)@.move_right(n as nat).1),
    {
        if self.is_last() {
            return Ok(String::new());
        }
        self.pos += n;
        Ok(terminal::move_right(n))
    }

    /// Moves the terminal's cursor `n` lines down; the cursor in the line stays.
    pub fn move_down(&mut self, n: usize) -> (r: Result<String, std::io::Error>)
        ensures
            final(self)@ == old(self)@,
            wrote(r, control_sequence(n as nat, 'B')),
    {
        Ok(terminal::move_down(n))
    }

    /// Moves the cursor to the start of the line.
    pub fn move_to_first(&mut self) -> (r: Result<String, std::io::Error>)
        ensures
            final(self)@ == old(self)@.go_to(0).0,
            wrote(r, old(self)@.go_to(0).1),
    {
        Ok(self.go_to(0))
    }

    /// Moves the cursor behind the last character of the line.
    pub fn move_to_end(&mut self) -> (r: Result<String, std::io::Error>)
        ensures
            final(self)@ == old(self)@.go_to(old(self)@.line.len()).0,
            wrote(r, old(self)@.go_to(old(self)@.line.len()).1),
    {
        let n = self.line.as_str().unicode_len();
        Ok(self.go_to(n))
    }

    /// Moves the cursor into the `n`-th place of the line, counted from 1.
    pub fn move_to(&mut self, n: usize) -> (r: Result<String, std::io::Error>)
        requires
            n >= 1,
        ensures
            final(self)@ == old(self)@.go_to((n - 1) as nat).0,
            wrote(r, old(self)@.go_to((n - 1) as nat).1),
    {
        Ok(self.go_to(n - 1))
    }

    /// Puts the cursor on the character with index `pos` and returns the
    /// move to its column.
    fn go_to(&mut self, pos: usize) -> (out: String)
        ensures
            final(self)@ == old(self)@.go_to(pos as nat).0,
            out@ == old(self)@.go_to(pos as nat).1,
    {
        self.pos = pos;
        let col = self.prompt.as_str().unicode_len().saturating_add(pos).saturating_add(1);
        terminal::move_to(col)
    }

    /// The cursor stands at the start of the line.
    pub fn is_start(&self) -> (b: bool)
        ensures
            b == self@.is_start(),
    {
        self.pos < 1
    }

    /// The cursor stands behind the last character of the line.
    pub fn is_last(&self) -> (b: bool)
        ensures
            b == self@.is_last(),
    {
        self.pos >= self.line.as_str().unicode_len()
    }
}

/// The extra columns to move left when the characters of `line` from
/// `start` up to `end` are deleted.
fn tab_shift_of(line: &str, start: usize, end: usize) -> (shift: Option<usize>)
    requires
        start <= end <= line@.len(),
    ensures
        match shift {
            Some(k) => tab_shift(line@, line@.subrange(start as int, end as int)) == Some(k as nat),
            None => tab_shift(line@, line@.subrange(start as int, end as int)) is None,
        },
{
    let buffer = crate::readline::buffer::Buffer::from_str(line);
    crate::readline::editor::tab_shift_in(&buffer, start, end)
}

} // verus!
