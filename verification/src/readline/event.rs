//! The events that a key or a signal stands for, and what each does.

use vstd::prelude::*;
use vstd::utf8::{decode_utf8, valid_utf8};
use crate::readline::completer::Completer;
use crate::readline::context::{Context, ContextState, Mode};
use crate::readline::editor::{starts_completion, Complete, EditorState};
use crate::readline::history::HistoryState;
use crate::text::{is_blank, is_space, text_of_bytes};

verus! {

/// The kinds of events.
#[derive(Clone, Copy, Debug, PartialEq, Eq)]
pub enum Kind {
    Enter,
    Delete,
    Complete,
    CtrlL,
    ForwardChar,
    BackwardChar,
    PreviousHistory,
    NextHistory,
    BeginningOFLine,
    EndOfLine,
    Interrupt,
    /// A key that is bound to nothing yet.
    Something,
}

/// Why an input was turned away.
#[derive(Clone, Copy, Debug, PartialEq, Eq)]
pub enum InputError {
    /// The bytes are bound to no event and are not text in UTF-8.
    InvalidUtf8,
}

impl InputError {
    /// The error in words.
    pub fn message(&self) -> (s: String)
        ensures
            s@ == "input is not valid UTF-8"@,
    {
        String::from_str("input is not valid UTF-8")
    }
}

impl ContextState {
    /// The line is given up: the overlay goes, the line is emptied, and the
    /// walk through the history ends.
    pub open spec fn interrupt(self) -> ContextState {
        ContextState {
            editor: self.editor.completion_clear().reset().new_line(),
            history: self.history.reset(),
            mode: Mode::Normal,
        }
    }

    /// The line is submitted: it goes into the history, and the editor
    /// starts afresh as after an interrupt.
    pub open spec fn enter(self) -> ContextState {
        ContextState {
            editor: self.editor.completion_clear().reset().new_line(),
            history: self.history.push(self.editor.buffer).reset(),
            mode: Mode::Normal,
        }
    }

    /// The screen is cleared and the prompt and the line are drawn again.
    pub open spec fn ctrl_l(self) -> ContextState {
        ContextState { editor: self.editor.clear_screen().write_line(), mode: Mode::Normal, ..self }
    }

    /// The character left of the cursor is removed.
    pub open spec fn delete(self) -> ContextState {
        ContextState {
            editor: self.editor.completion_clear().delete(1),
            mode: Mode::Normal,
            ..self
        }
    }

    /// The cursor moves one character to the right.
    pub open spec fn forward_char(self) -> ContextState {
        ContextState { editor: self.editor.move_right(1), mode: Mode::Normal, ..self }
    }

    /// The cursor moves one character to the left.
    pub open spec fn backward_char(self) -> ContextState {
        ContextState { editor: self.editor.move_left(1), mode: Mode::Normal, ..self }
    }

    /// The cursor moves to the start of the line.
    pub open spec fn beginning_of_line(self) -> ContextState {
        ContextState { editor: self.editor.move_to(0), mode: Mode::Normal, ..self }
    }

    /// The cursor moves behind the last character of the line.
    pub open spec fn end_of_line(self) -> ContextState {
        ContextState {
            editor: self.editor.move_to(self.editor.buffer.len()),
            mode: Mode::Normal,
            ..self
        }
    }

    /// Only the completion mode ends.
    pub open spec fn nothing(self) -> ContextState {
        ContextState { mode: Mode::Normal, ..self }
    }

    /// The history is `history` now, and `line`, if there is one, takes the
    /// place of the line, with the cursor at its end.
    pub open spec fn show_line(
        self,
        history: HistoryState,
        line: Option<Seq<char>>,
    ) -> ContextState {
        match line {
            Some(l) => ContextState {
                editor: self.editor.replace(l).move_to(l.len()),
                history: history,
                ..self
            },
            None => ContextState { history: history, ..self },
        }
    }

    /// The history as the walk back finds it: a walk that begins keeps the
    /// line that is being typed.
    pub open spec fn history_begun(self) -> HistoryState {
        if self.history.pos == 0 && self.history.first is None {
            HistoryState { first: Some(self.editor.buffer), ..self.history }
        } else {
            self.history
        }
    }

    /// In completion mode the highlight moves back; else the line before in
    /// the history is shown.
    pub open spec fn previous_history(self) -> ContextState {
        match self.mode {
            Mode::Completion => ContextState { editor: self.editor.completion_prev(), ..self },
            Mode::Normal => self.show_line(
                self.history_begun().prev().0,
                self.history_begun().prev().1,
            ),
        }
    }

    /// In completion mode the highlight moves on; else the next line of the
    /// history is shown.
    pub open spec fn next_history(self) -> ContextState {
        match self.mode {
            Mode::Completion => ContextState { editor: self.editor.completion_next(), ..self },
            Mode::Normal => self.show_line(self.history.next().0, self.history.next().1),
        }
    }

    /// The text `t` is typed: it goes into the line at the cursor, and the
    /// line kept for the walk through the history is forgotten.
    pub open spec fn text(self, t: Seq<char>) -> ContextState {
        ContextState {
            editor: self.editor.completion_clear().put(t),
            history: HistoryState { first: None, ..self.history },
            mode: Mode::Normal,
        }
    }

    /// A tab on a line without a word is a character like any other.
    pub open spec fn tab_on_blank(self) -> ContextState {
        ContextState { editor: self.editor.put(seq!['\t']), ..self }
    }

    /// A tab on a line with a word begins or continues a completion, for
    /// which the completer answered `candidates` and then reported `width`:
    /// `self` is the state that this leads to from `before`. The completion
    /// begins, and the highlight moves on to the first candidate.
    pub open spec fn completes(
        self,
        before: ContextState,
        candidates: Seq<Seq<char>>,
        width: usize,
    ) -> bool {
        &&& self.mode == Mode::Completion
        &&& self.history == before.history
        &&& exists|mid: EditorState| #[trigger]
            starts_completion(before.editor, mid, candidates, width) && self.editor
                == mid.completion_next()
    }
}

/// The state after an event of the kind `kind` in the state `s`; no kind
/// stands for input that is bound to no event, which is the text `typed`.
/// For a tab on a line with a word see `ContextState::completes`.
pub open spec fn handled(kind: Option<Kind>, s: ContextState, typed: Seq<char>) -> ContextState {
    match kind {
        Some(Kind::Interrupt) => s.interrupt(),
        Some(Kind::Complete) => s.tab_on_blank(),
        Some(Kind::Enter) => s.enter(),
        Some(Kind::CtrlL) => s.ctrl_l(),
        Some(Kind::Delete) => s.delete(),
        Some(Kind::ForwardChar) => s.forward_char(),
        Some(Kind::BackwardChar) => s.backward_char(),
        Some(Kind::PreviousHistory) => s.previous_history(),
        Some(Kind::NextHistory) => s.next_history(),
        Some(Kind::BeginningOFLine) => s.beginning_of_line(),
        Some(Kind::EndOfLine) => s.end_of_line(),
        Some(Kind::Something) => s.nothing(),
        None => s.text(typed),
    }
}

/// An interrupt leaves an empty line with the cursor at its start, ends
/// the completion and the walk through the history, and stores no line.
pub proof fn lemma_interrupt_clears(s: ContextState)
    ensures
        s.interrupt().editor.buffer == Seq::<char>::empty(),
        s.interrupt().editor.pos == 0,
        !s.interrupt().editor.completing,
        s.interrupt().history.entries == s.history.entries,
        s.interrupt().history.at_rest(),
        s.interrupt().mode == Mode::Normal,
{
}

/// A line that is submitted becomes the most recent line of the history,
/// before the lines that were there.
pub proof fn lemma_enter_stores(s: ContextState)
    ensures
        s.enter().history.entries == seq![s.editor.buffer] + s.history.entries,
        s.enter().history.at_rest(),
        s.enter().editor.buffer == Seq::<char>::empty(),
        s.enter().editor.pos == 0,
{
}

/// The text that the bytes `ch` encode; none where they are not UTF-8.
pub open spec fn typed(ch: Seq<u8>) -> Seq<char> {
    if valid_utf8(ch) {
        decode_utf8(ch)
    } else {
        Seq::empty()
    }
}

/// The event is a tab on a line that holds a word.
pub open spec fn is_completion(kind: Option<Kind>, s: ContextState) -> bool {
    kind == Some(Kind::Complete) && !is_blank(s.editor.buffer)
}

/// Handling an event of the kind `kind`, which the input `ch` stands for,
/// leads from the state `before` to the state `after`. `candidates` is
/// what the completer has for the word that ends at the cursor, and `width`
/// what it reports after it was asked; they count for a tab on a line with
/// a word only.
pub open spec fn leads_to(
    kind: Option<Kind>,
    ch: Seq<u8>,
    before: ContextState,
    after: ContextState,
    candidates: Seq<Seq<char>>,
    width: usize,
) -> bool {
    if is_completion(kind, before) {
        after.completes(before, candidates, width)
    } else {
        after == handled(kind, before, typed(ch))
    }
}

/// An event, ready to be handled.
#[derive(Clone, Copy, Debug)]
pub struct Event {
    /// The kind of the event; none for input that is bound to no event.
    pub kind: Option<Kind>,
}

/// The line holds no word.
fn blank(line: &String) -> (b: bool)
    ensures
        b == is_blank(line@),
{
    let chars = crate::text::chars_of(line.as_str());
    let mut i: usize = 0;
    while i < chars.len()
        invariant
            0 <= i <= chars.len(),
            chars@ == line@,
            forall|j: int| 0 <= j < i ==> crate::text::is_whitespace(#[trigger] chars@[j]),
        decreases chars.len() - i,
    {
        if !is_space(chars[i]) {
            return false;
        }
        i += 1;
    }
    true
}

/// The handlers, one for each kind of event.
impl<C: Completer> Context<C> {
    fn on_interrupt(&mut self)
        requires
            old(self)@.wf(),
        ensures
            final(self)@ == old(self)@.interrupt(),
            final(self).completer == old(self).completer,
            final(self)@.wf(),
    {
        self.editor.completion_clear();
        self.editor.reset();
        self.editor.new_line();
        self.history.reset();
        self.mode = Mode::Normal;
    }

    fn on_complete(&mut self)
        requires
            old(self)@.wf(),
        ensures
            is_blank(old(self)@.editor.buffer) ==> final(self)@ == old(self)@.tab_on_blank(),
            is_blank(old(self)@.editor.buffer) ==> final(self).completer == old(self).completer,
            !is_blank(old(self)@.editor.buffer) ==> final(self)@.completes(
                old(self)@,
                old(self).completer.candidates(old(self)@.editor.word_text()),
                final(self).completer.width(),
            ),
            final(self)@.wf(),
    {
        if blank(&self.editor.line()) {
            proof {
                reveal_strlit("\t");
            }
            assert("\t"@ =~= seq!['\t']);
            self.editor.put("\t");
        } else {
            self.editor.complete(&mut self.completer);
            let ghost mid = self.editor@;
            self.editor.completion_next();
            self.mode = Mode::Completion;
            assert(starts_completion(
                old(self)@.editor,
                mid,
                old(self).completer.candidates(old(self)@.editor.word_text()),
                self.completer.width(),
            ) && self@.editor == mid.completion_next());
        }
    }

    fn on_enter(&mut self) -> (line: String)
        requires
            old(self)@.wf(),
        ensures
            line@ == old(self)@.editor.buffer,
            final(self)@ == old(self)@.enter(),
            final(self).completer == old(self).completer,
            final(self)@.wf(),
    {
        let result = self.editor.line();
        self.editor.completion_clear();
        self.editor.reset();
        self.editor.new_line();
        self.history.push(result.clone());
        self.history.reset();
        self.mode = Mode::Normal;
        result
    }

    fn on_ctrl_l(&mut self)
        requires
            old(self)@.wf(),
        ensures
            final(self)@ == old(self)@.ctrl_l(),
            final(self).completer == old(self).completer,
            final(self)@.wf(),
    {
        self.editor.clear_screen();
        self.editor.write_line();
        self.mode = Mode::Normal;
    }

    fn on_delete(&mut self)
        requires
            old(self)@.wf(),
        ensures
            final(self)@ == old(self)@.delete(),
            final(self).completer == old(self).completer,
            final(self)@.wf(),
    {
        self.editor.completion_clear();
        self.editor.delete(1);
        self.mode = Mode::Normal;
    }

    fn on_forward_char(&mut self)
        requires
            old(self)@.wf(),
        ensures
            final(self)@ == old(self)@.forward_char(),
            final(self).completer == old(self).completer,
            final(self)@.wf(),
    {
        self.editor.move_right(1);
        self.mode = Mode::Normal;
    }

    fn on_backward_char(&mut self)
        requires
            old(self)@.wf(),
        ensures
            final(self)@ == old(self)@.backward_char(),
            final(self).completer == old(self).completer,
            final(self)@.wf(),
    {
        self.editor.move_left(1);
        self.mode = Mode::Normal;
    }

    /// Puts `line`, if there is one, in the place of the line.
    fn show(&mut self, line: Option<String>)
        requires
            old(self)@.wf(),
        ensures
            final(self)@ == old(self)@.show_line(
                old(self)@.history,
                match line {
                    Some(l) => Some(l@),
                    None => None,
                },
            ),
            final(self).completer == old(self).completer,
            final(self)@.wf(),
    {
        if let Some(h) = line {
            self.editor.replace(h.as_str());
            self.editor.move_to_end();
        }
    }

    fn on_previous_history(&mut self)
        requires
            old(self)@.wf(),
        ensures
            final(self)@ == old(self)@.previous_history(),
            final(self).completer == old(self).completer,
            final(self)@.wf(),
    {
        match self.mode {
            Mode::Completion => {
                self.editor.completion_prev();
            },
            Mode::Normal => {
                if self.history.is_started() {
                    self.history.set_first(self.editor.line());
                }
                let line = match self.history.prev() {
                    Some(h) => Some(h.clone()),
                    None => None,
                };
                self.show(line);
            },
        }
    }

    fn on_next_history(&mut self)
        requires
            old(self)@.wf(),
        ensures
            final(self)@ == old(self)@.next_history(),
            final(self).completer == old(self).completer,
            final(self)@.wf(),
    {
        match self.mode {
            Mode::Completion => {
                self.editor.completion_next();
            },
            Mode::Normal => {
                let line = match self.history.next() {
                    Some(h) => Some(h.clone()),
                    None => None,
                };
                self.show(line);
            },
        }
    }

    fn on_beginning_of_line(&mut self)
        requires
            old(self)@.wf(),
        ensures
            final(self)@ == old(self)@.beginning_of_line(),
            final(self).completer == old(self).completer,
            final(self)@.wf(),
    {
        self.editor.move_to_first();
        self.mode = Mode::Normal;
    }

    fn on_end_of_line(&mut self)
        requires
            old(self)@.wf(),
        ensures
            final(self)@ == old(self)@.end_of_line(),
            final(self).completer == old(self).completer,
            final(self)@.wf(),
    {
        self.editor.move_to_end();
        self.mode = Mode::Normal;
    }

    fn on_text(&mut self, text: String)
        requires
            old(self)@.wf(),
        ensures
            final(self)@ == old(self)@.text(text@),
            final(self).completer == old(self).completer,
            final(self)@.wf(),
    {
        self.editor.completion_clear();
        self.mode = Mode::Normal;
        self.editor.put(text.as_str());
        self.history.reset_first();
    }
}

impl Event {
    /// The event for input of the kind `k`.
    pub fn from_event_kind(k: &Option<Kind>) -> (e: Self)
        ensures
            e.kind == *k,
    {
        Self { kind: *k }
    }

    /// Handles the event: changes the line, the history and the mode as the
    /// kind of the event asks, and draws the change. `ch` is the input that
    /// stands for the event. Returns the line when the event submits it.
    ///
    /// Input that is bound to no event is typed text; where it is not
    /// UTF-8 it is turned away and nothing changes.
    pub fn handle<C: Completer>(&self, con: &mut Context<C>, ch: Vec<u8>) -> (r: Result<
        Option<String>,
        InputError,
    >)
        requires
            old(con)@.wf(),
        ensures
            final(con)@.wf(),
            r is Err <==> self.kind is None && !valid_utf8(ch@),
            r is Err ==> r == Err::<Option<String>, InputError>(InputError::InvalidUtf8)
                && final(con)@ == old(con)@,
            r is Ok ==> leads_to(
                self.kind,
                ch@,
                old(con)@,
                final(con)@,
                old(con).completer.candidates(old(con)@.editor.word_text()),
                final(con).completer.width(),
            ),
            !is_completion(self.kind, old(con)@) ==> final(con).completer == old(con).completer,
            r matches Ok(Some(line)) ==> self.kind == Some(Kind::Enter) && line@ == old(
                con,
            )@.editor.buffer,
            r matches Ok(None) ==> self.kind != Some(Kind::Enter),
    {
        match self.kind {
            Some(Kind::Interrupt) => {
                con.on_interrupt();
                Ok(None)
            },
            Some(Kind::Complete) => {
                con.on_complete();
                Ok(None)
            },
            Some(Kind::Enter) => {
                let line = con.on_enter();
                Ok(Some(line))
            },
            Some(Kind::CtrlL) => {
                con.on_ctrl_l();
                Ok(None)
            },
            Some(Kind::Delete) => {
                con.on_delete();
                Ok(None)
            },
            Some(Kind::ForwardChar) => {
                con.on_forward_char();
                Ok(None)
            },
            Some(Kind::BackwardChar) => {
                con.on_backward_char();
                Ok(None)
            },
            Some(Kind::PreviousHistory) => {
                con.on_previous_history();
                Ok(None)
            },
            Some(Kind::NextHistory) => {
                con.on_next_history();
                Ok(None)
            },
            Some(Kind::BeginningOFLine) => {
                con.on_beginning_of_line();
                Ok(None)
            },
            Some(Kind::EndOfLine) => {
                con.on_end_of_line();
                Ok(None)
            },
            Some(Kind::Something) => {
                con.mode = Mode::Normal;
                Ok(None)
            },
            None => {
                match text_of_bytes(ch) {
                    Some(text) => {
                        con.on_text(text);
                        Ok(None)
                    },
                    None => Err(InputError::InvalidUtf8),
                }
            },
        }
    }
}

} // verus!
