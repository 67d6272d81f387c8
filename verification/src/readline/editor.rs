//! Editing a line, and drawing what the edit changes.
//!
//! Every operation changes the text or the cursor and appends to the render
//! buffer the characters that bring the terminal up to date. Nothing is
//! written to the terminal here: `display` hands the render buffer out.

use vstd::prelude::*;
use crate::readline::buffer::{position, words, Buffer, CursorPosition};
use crate::readline::completer::{
    overlay, overlay_hidden, window, window_fits, Completer, CompletionArea,
};
use crate::text::texts;
use crate::readline::terminal;
use crate::readline::terminal::{control_sequence, Winsize};

verus! {

/// The terminal's error type. Nothing in this module produces one.
#[verifier::external_type_specification]
#[verifier::external_body]
pub struct ExIoError(std::io::Error);

/// The column of the character with index `n` of a line that follows
/// `prompt`; columns count from 1. A column that does not fit the machine's
/// numbers is the largest that does.
pub open spec fn column(prompt: Seq<char>, n: nat) -> nat {
    if prompt.len() + n + 1 <= usize::MAX {
        prompt.len() + n + 1
    } else {
        usize::MAX as nat
    }
}

/// The sequence that clears the screen and puts the cursor in its first cell.
pub open spec fn clear_screen_code() -> Seq<char> {
    seq!['\x1b', '[', '2', 'J', '\x1b', '[', '1', ';', '1', 'H']
}

/// Index of the first tab in `s`, or the length of `s` where it holds none.
pub open spec fn first_tab(s: Seq<char>) -> int
    decreases s.len(),
{
    if s.len() == 0 {
        0
    } else if s[0] == '\t' {
        0
    } else {
        1 + first_tab(s.drop_first())
    }
}

/// Index of the last tab in `s`, or -1 where it holds none.
pub open spec fn last_tab(s: Seq<char>) -> int
    decreases s.len(),
{
    if s.len() == 0 {
        -1
    } else if s.last() == '\t' {
        s.len() - 1
    } else {
        last_tab(s.drop_last())
    }
}

/// How many extra columns the cursor moves left when `deleted`, a part of
/// `line`, is removed: a tab is drawn wider than one cell. None when no tab
/// is deleted.
pub open spec fn tab_shift(line: Seq<char>, deleted: Seq<char>) -> Option<nat> {
    if first_tab(deleted) < deleted.len() {
        if first_tab(deleted) == last_tab(line) {
            Some(5)
        } else {
            Some(7)
        }
    } else {
        None
    }
}

/// What an editor holds, as mathematical values.
pub struct EditorState {
    /// Index of the character under the cursor.
    pub pos: nat,
    pub prompt: Seq<char>,
    /// The text of the line.
    pub buffer: Seq<char>,
    /// What has been drawn since the last `display`.
    pub out: Seq<char>,
    /// The candidates of the last completion.
    pub completions: Seq<Seq<char>>,
    /// The highlighted candidate, counted from 1; 0 before the first is chosen.
    pub index: nat,
    /// A completion is under way.
    pub completing: bool,
    /// Index of the candidate in the first row of the overlay.
    pub window_first: nat,
    /// The number of characters of the longest candidate.
    pub max_len: nat,
    /// The size of the terminal.
    pub win_size: Winsize,
}

/// The number of candidates that the overlay shows at a time.
pub const PAGE_SIZE: usize = 10;

/// `a` comes before `b`, or is `b`, in the order of the dictionary: at the
/// first place where they differ `a` has the smaller byte, or `a` ends there.
pub open spec fn bytes_le(a: Seq<u8>, b: Seq<u8>) -> bool
    decreases a.len(),
{
    if a.len() == 0 {
        true
    } else if b.len() == 0 {
        false
    } else if a[0] != b[0] {
        a[0] < b[0]
    } else {
        bytes_le(a.drop_first(), b.drop_first())
    }
}

/// `a` comes before `b`, or is `b`, in the order of strings, which is that
/// of their bytes in UTF-8.
pub open spec fn text_le(a: Seq<char>, b: Seq<char>) -> bool {
    bytes_le(vstd::utf8::encode_utf8(a), vstd::utf8::encode_utf8(b))
}

/// No text of `v` comes before one that stands earlier in `v`.
pub open spec fn ascending(v: Seq<Seq<char>>) -> bool {
    forall|i: int, j: int| 0 <= i < j < v.len() ==> text_le(#[trigger] v[i], #[trigger] v[j])
}

/// `sorted` holds the texts of `given`, each as often as `given` does, in
/// ascending order.
pub open spec fn sorting_of(sorted: Seq<Seq<char>>, given: Seq<Seq<char>>) -> bool {
    ascending(sorted) && sorted.to_multiset() == given.to_multiset()
}

/// `sort` on a slice of strings puts them in ascending order and keeps each
/// as often as it was there. Strings are ordered by their bytes.
#[verifier::external_body]
fn sort_strings(v: &mut Vec<String>)
    ensures
        sorting_of(texts(final(v)@), texts(old(v)@)),
{
    v.sort();
}

impl EditorState {
    /// The state of an editor that has just been made: an empty line behind
    /// `prompt`, nothing drawn, and no completion.
    pub open spec fn fresh(prompt: Seq<char>, win_size: Winsize) -> EditorState {
        EditorState {
            pos: 0,
            prompt: prompt,
            buffer: Seq::empty(),
            out: Seq::empty(),
            completions: Seq::empty(),
            index: 0,
            completing: false,
            window_first: 0,
            max_len: 0,
            win_size: win_size,
        }
    }

    /// The cursor stands in the line or at its end.
    pub open spec fn wf(self) -> bool {
        self.pos <= self.buffer.len()
    }

    /// The same state with `s` drawn.
    pub open spec fn emit(self, s: Seq<char>) -> EditorState {
        EditorState { out: self.out + s, ..self }
    }

    /// The cursor stands at the start of the line.
    pub open spec fn is_start(self) -> bool {
        self.pos < 1
    }

    /// The cursor stands behind the last character of the line.
    pub open spec fn is_last(self) -> bool {
        self.pos >= self.buffer.len()
    }

    /// The line is emptied and the cursor put at its start; nothing is drawn.
    pub open spec fn reset(self) -> EditorState {
        EditorState { pos: 0, buffer: Seq::empty(), ..self }
    }

    /// The cursor moves onto the character with index `n`.
    pub open spec fn move_to(self, n: nat) -> EditorState {
        EditorState { pos: n, ..self }.emit(control_sequence(column(self.prompt, n), 'G'))
    }

    /// What the terminal shows behind the cursor is cleared.
    pub open spec fn clear_to_screen_end(self) -> EditorState {
        self.emit(control_sequence(0, 'J'))
    }

    /// `s` is drawn and the cursor moves behind it.
    pub open spec fn write_str(self, s: Seq<char>) -> EditorState {
        EditorState { pos: self.pos + s.len(), ..self }.emit(s)
    }

    /// The line with `s` put in at the cursor.
    pub open spec fn inserted(self, s: Seq<char>) -> Seq<char> {
        self.buffer.subrange(0, self.pos as int) + s + self.buffer.subrange(
            self.pos as int,
            self.buffer.len() as int,
        )
    }

    /// `s` is put in at the cursor, which then stands behind it. At the end
    /// of the line only `s` is drawn; elsewhere the line is drawn again from
    /// where `s` begins.
    pub open spec fn put(self, s: Seq<char>) -> EditorState {
        let buffer = self.inserted(s);
        if self.is_last() {
            EditorState { buffer: buffer, ..self }.write_str(s)
        } else {
            EditorState { buffer: buffer, ..self }.clear_to_screen_end().emit(
                buffer.subrange(self.pos as int, buffer.len() as int),
            ).move_to(self.pos + s.len())
        }
    }

    /// The cursor moves `n` characters to the left, unless it stands at the start.
    pub open spec fn move_left(self, n: nat) -> EditorState {
        if self.is_start() {
            self
        } else {
            EditorState { pos: (self.pos - n) as nat, ..self }.emit(control_sequence(n, 'D'))
        }
    }

    /// The cursor moves `n` characters to the right, unless it stands at the end.
    pub open spec fn move_right(self, n: nat) -> EditorState {
        if self.is_last() {
            self
        } else {
            EditorState { pos: self.pos + n, ..self }.emit(control_sequence(n, 'C'))
        }
    }

    /// The line without the `n` characters left of the cursor.
    pub open spec fn removed(self, n: nat) -> Seq<char> {
        self.buffer.subrange(0, self.pos - n) + self.buffer.subrange(
            self.pos as int,
            self.buffer.len() as int,
        )
    }

    /// The `n` characters left of the cursor are removed and the cursor
    /// moves onto the place of the first of them; the rest of the line is
    /// drawn again. At the start of the line nothing happens.
    pub open spec fn delete(self, n: nat) -> EditorState {
        if self.is_start() {
            self
        } else {
            let deleted = self.buffer.subrange(self.pos - n, self.pos as int);
            let shifted = match tab_shift(self.buffer, deleted) {
                Some(k) => self.emit(control_sequence(k, 'D')),
                None => self,
            };
            let cut = EditorState { buffer: self.removed(n), ..shifted }.move_left(
                n,
            ).clear_to_screen_end();
            if cut.is_last() {
                cut
            } else {
                cut.emit(cut.buffer.subrange(cut.pos as int, cut.buffer.len() as int)).move_to(
                    cut.pos,
                )
            }
        }
    }

    /// The text of the line is drawn.
    pub open spec fn write_line(self) -> EditorState {
        self.emit(self.buffer)
    }

    /// The prompt is drawn.
    pub open spec fn write_prompt(self) -> EditorState {
        self.emit(self.prompt)
    }

    /// The terminal's cursor is brought back to the editor's.
    pub open spec fn come_back(self) -> EditorState {
        self.move_to(self.pos)
    }

    /// The line is emptied and wiped from the screen; the cursor keeps its index.
    pub open spec fn clear_line(self) -> EditorState {
        EditorState {
            pos: self.pos,
            ..EditorState { buffer: Seq::empty(), ..self }.move_to(0).clear_to_screen_end()
        }
    }

    /// The line becomes `s`, which is drawn in place of the old one.
    pub open spec fn replace(self, s: Seq<char>) -> EditorState {
        EditorState { buffer: s, ..self.clear_line() }.write_line()
    }

    /// A line feed is drawn.
    pub open spec fn new_line(self) -> EditorState {
        self.emit(seq!['\n'])
    }

    /// The screen is cleared and the prompt drawn in its first line; the cursor
    /// goes to the start of the line.
    pub open spec fn clear_screen(self) -> EditorState {
        EditorState { pos: 0, ..self }.emit(clear_screen_code() + self.prompt)
    }

    /// `s` is drawn below the line, `height` lines high, and the cursor is
    /// brought back to its place.
    pub open spec fn write_sub(self, s: Seq<char>, height: nat) -> EditorState {
        self.emit(s).emit(control_sequence(height, 'A')).move_to(self.pos)
    }

    /// The text of the word that ends where the cursor stands: what a
    /// completer is asked for. Empty where no word ends there.
    pub open spec fn word_text(self) -> Seq<char> {
        match self.word_before_cursor() {
            Some(w) => self.buffer.subrange(w.0, w.1),
            None => Seq::empty(),
        }
    }

    /// The word that ends where the cursor stands.
    pub open spec fn word_before_cursor(self) -> Option<(int, int)> {
        match position(self.pos as int, words(self.buffer)) {
            CursorPosition::OnWordRightEdge(i) => Some(words(self.buffer)[i as int]),
            _ => None,
        }
    }

    /// The state with the candidates `completions`, the longest of which has
    /// `max_len` characters.
    pub open spec fn installed(self, completions: Seq<Seq<char>>, max_len: nat) -> EditorState {
        EditorState { completions: completions, max_len: max_len, ..self }
    }

    /// The overlay is wiped from the screen and the completion is over.
    /// Without a completion under way nothing happens.
    pub open spec fn completion_clear(self) -> EditorState {
        if !self.completing {
            self
        } else {
            EditorState {
                index: 0,
                completing: false,
                ..self.emit(control_sequence(1, 'E')).emit(control_sequence(0, 'J')).emit(
                    control_sequence(1, 'A'),
                ).come_back()
            }
        }
    }

    /// The word that ends at the cursor gives way to the candidate with the
    /// index `index`. Without such a word or such a candidate nothing happens.
    pub open spec fn swap_completion(self, index: nat) -> EditorState {
        if index < self.completions.len() {
            match self.word_before_cursor() {
                Some(w) => self.delete((w.1 - w.0) as nat).put(self.completions[index as int]),
                None => self,
            }
        } else {
            self
        }
    }

    /// The number of lines that the overlay takes, the line of the text included.
    pub open spec fn overlay_height(self) -> nat {
        if self.completions.len() < PAGE_SIZE {
            self.completions.len() + 1
        } else {
            (PAGE_SIZE + 1) as nat
        }
    }

    /// The column in which the overlay begins: that of the word being
    /// completed, or of the start of the line.
    pub open spec fn overlay_column(self) -> nat {
        column(
            self.prompt,
            match self.word_before_cursor() {
                Some(w) => w.0 as nat,
                None => 0,
            },
        )
    }

    /// Where the overlay's window begins once it has been drawn.
    pub open spec fn next_window_first(self) -> nat {
        if overlay_hidden(self.completions.len(), PAGE_SIZE as nat) {
            self.window_first
        } else {
            window(
                self.window_first,
                self.index,
                PAGE_SIZE as nat,
                self.completions.len(),
            ).first as nat
        }
    }

    /// The overlay can be drawn: its window, moved to hold the highlight,
    /// lies inside the list of candidates, and the width of a row fits the
    /// machine's numbers.
    pub open spec fn may_show(self) -> bool {
        &&& self.max_len < usize::MAX
        &&& !overlay_hidden(self.completions.len(), PAGE_SIZE as nat) ==> window_fits(
            window(self.window_first, self.index, PAGE_SIZE as nat, self.completions.len()),
            self.completions.len(),
        )
    }

    /// The overlay is drawn below the line.
    pub open spec fn completion_disply(self) -> EditorState {
        EditorState { window_first: self.next_window_first(), ..self }.write_sub(
            overlay(
                self.completions,
                self.window_first,
                self.index,
                self.overlay_column(),
                PAGE_SIZE as nat,
                self.max_len,
            ),
            self.overlay_height(),
        )
    }

    /// The highlight names a candidate or is about to name the first, and a
    /// window that scrolls lies inside the list.
    pub open spec fn settled(self) -> bool {
        &&& self.max_len < usize::MAX
        &&& self.index <= self.completions.len() || self.index <= 1
        &&& PAGE_SIZE < self.completions.len() <= 2 * PAGE_SIZE - 1 ==> self.window_first
            + PAGE_SIZE <= self.completions.len()
    }

    /// The highlight can move on: no candidate is highlighted yet, or the
    /// state is settled.
    pub open spec fn may_advance(self) -> bool {
        self.max_len < usize::MAX && (self.index == 0 || self.settled())
    }

    /// The highlight after a step forward: behind the last candidate it
    /// starts again at the first.
    pub open spec fn index_after_next(self) -> nat {
        if self.index >= self.completions.len() {
            1
        } else {
            self.index + 1
        }
    }

    /// The highlight after a step back: before the first candidate it goes
    /// to the last.
    pub open spec fn index_after_prev(self) -> nat {
        if self.index <= 1 {
            self.completions.len()
        } else {
            (self.index - 1) as nat
        }
    }

    /// The highlight moves on, the highlighted candidate takes the place of
    /// the word at the cursor, and the overlay is drawn again. Without a
    /// completion under way nothing happens.
    pub open spec fn completion_next(self) -> EditorState {
        if !self.completing {
            self
        } else {
            EditorState { index: self.index_after_next(), ..self }.swap_completion(
                (self.index_after_next() - 1) as nat,
            ).completion_disply()
        }
    }

    /// The highlight moves back, the candidate behind the highlighted one
    /// takes the place of the word at the cursor, and the overlay is drawn
    /// again. Without a completion under way nothing happens.
    pub open spec fn completion_prev(self) -> EditorState {
        if !self.completing {
            self
        } else {
            EditorState { index: self.index_after_prev(), ..self }.swap_completion(
                self.index_after_prev(),
            ).completion_disply()
        }
    }
}

/// Text that is put in and then deleted again leaves no trace: the line
/// and the cursor are what they were, and so is everything but what was
/// drawn.
pub proof fn lemma_put_then_delete(st: EditorState, s: Seq<char>)
    requires
        st.wf(),
    ensures
        st.put(s).delete(s.len()).buffer == st.buffer,
        st.put(s).delete(s.len()).pos == st.pos,
        st.put(s).delete(s.len()) == (EditorState { out: st.put(s).delete(s.len()).out, ..st }),
{
    let mid = st.put(s);
    let end = mid.delete(s.len());
    assert(mid.buffer == st.inserted(s));
    assert(mid.pos == st.pos + s.len());
    if s.len() == 0 {
        assert(mid.buffer =~= st.buffer);
        if !mid.is_start() {
            assert(mid.removed(0) =~= st.buffer);
        }
    } else {
        assert(mid.removed(s.len()) =~= st.buffer);
    }
}

/// The width that the overlay takes from a completer that reports `width`:
/// one that the machine's numbers cannot hold one more than is cut to the
/// largest that they can.
pub open spec fn cut_width(width: usize) -> nat {
    if width == usize::MAX {
        (usize::MAX - 1) as nat
    } else {
        width as nat
    }
}

/// `after` is `before` with a completion begun, for which the completer
/// answered `candidates` and then reported `width`. Where a completion was
/// under way nothing has changed. Else, where a word ends at the cursor,
/// the candidates are those that the completer answered, in ascending
/// order; where none does, the completer was not asked and the old ones stay.
pub open spec fn starts_completion(
    before: EditorState,
    after: EditorState,
    candidates: Seq<Seq<char>>,
    width: usize,
) -> bool {
    if before.completing {
        after == before
    } else if before.word_before_cursor() is None {
        after == (EditorState { completing: true, ..before })
    } else {
        &&& sorting_of(after.completions, candidates)
        &&& after == (EditorState { completing: true, ..before }).installed(
            after.completions,
            cut_width(width),
        )
    }
}

/// Completion of the word at the cursor.
pub trait Complete {
    /// What the value holds, as mathematical values.
    spec fn state(&self) -> EditorState;

    /// Starts a completion, unless one is under way: asks `completer` for
    /// the candidates for the word that ends at the cursor.
    fn complete<C: Completer>(&mut self, completer: &mut C);

    /// Draws the overlay.
    fn completion_disply(&mut self)
        requires
            old(self).state().may_show(),
    ;

    /// Ends the completion and wipes the overlay.
    fn completion_clear(&mut self);

    /// Moves the highlight to the next candidate and puts it into the line.
    fn completion_next(&mut self)
        requires
            old(self).state().may_advance(),
    ;

    /// Moves the highlight to the candidate before and puts it into the line.
    fn completion_prev(&mut self)
        requires
            old(self).state().settled(),
    ;

    /// Puts the candidate with the index `index` in the place of the word
    /// that ends at the cursor.
    fn swap_completion(&mut self, index: usize);
}

/// The extra columns to move left when the characters from `start` up
/// to `end` are deleted.
pub(crate) fn tab_shift_in(buffer: &Buffer, start: usize, end: usize) -> (shift: Option<usize>)
    requires
        start <= end <= buffer@.len(),
    ensures
        match shift {
            Some(k) => tab_shift(buffer@, buffer@.subrange(start as int, end as int))
                == Some(k as nat),
            None => tab_shift(buffer@, buffer@.subrange(start as int, end as int))
                is None,
        },
{
    let ghost line = buffer@;
    let ghost deleted = line.subrange(start as int, end as int);
    // The first tab among the deleted characters.
    let mut i: usize = start;
    assert(deleted.subrange(0, deleted.len() as int) =~= deleted);
    while i < end && buffer.get(i) != '\t'
        invariant
            start <= i <= end <= line.len(),
            line == buffer@,
            deleted == line.subrange(start as int, end as int),
            first_tab(deleted) == (i - start) + first_tab(
                deleted.subrange(i - start, deleted.len() as int),
            ),
        decreases end - i,
    {
        proof {
            let rest = deleted.subrange(i - start, deleted.len() as int);
            assert(rest[0] == line[i as int]);
            assert(rest.drop_first() =~= deleted.subrange(i + 1 - start, deleted.len() as int));
        }
        i += 1;
    }
    proof {
        let rest = deleted.subrange(i - start, deleted.len() as int);
        if i < end {
            assert(rest[0] == line[i as int]);
        }
    }
    if i == end {
        return None;
    }
    let first = i - start;
    // The last tab of the whole line: there is one, at `i` or behind it.
    let mut j: usize = buffer.len();
    assert(line.subrange(0, j as int) =~= line);
    while j > 0 && buffer.get(j - 1) != '\t'
        invariant
            i < j <= line.len(),
            line == buffer@,
            line[i as int] == '\t',
            last_tab(line) == last_tab(line.subrange(0, j as int)),
        decreases j,
    {
        proof {
            let head = line.subrange(0, j as int);
            assert(head.last() == line[j - 1]);
            assert(head.drop_last() =~= line.subrange(0, j - 1));
        }
        j -= 1;
    }
    proof {
        let head = line.subrange(0, j as int);
        assert(head.last() == line[j - 1]);
    }
    if first == j - 1 {
        Some(5)
    } else {
        Some(7)
    }
}

/// The line editor: the prompt, the text with its cursor, and what is about
/// to be drawn.
pub struct Editor {
    /// Index of the character under the cursor.
    pub pos: usize,
    pub prompt: String,
    pub buffer: Buffer,
    /// What `display` hands out to be written to the terminal.
    pub w_buffer: String,
    /// The size of the terminal.
    pub win_size: Winsize,
    pub completer: CompletionArea,
    pub completions: Vec<String>,
    pub completer_index: usize,
    pub completer_is_after: bool,
}

impl View for Editor {
    type V = EditorState;

    open spec fn view(&self) -> EditorState {
        EditorState {
            pos: self.pos as nat,
            prompt: self.prompt@,
            buffer: self.buffer@,
            out: self.w_buffer@,
            completions: texts(self.completions@),
            index: self.completer_index as nat,
            completing: self.completer_is_after,
            window_first: self.completer.completion_area_first as nat,
            max_len: self.completer.max_len as nat,
            win_size: self.win_size,
        }
    }
}

impl Editor {
    /// An editor with an empty line for a terminal of the size `win_size`.
    pub fn new(prompt_: String, win_size: Winsize) -> (ed: Self)
        ensures
            ed@ == EditorState::fresh(prompt_@, win_size),
            ed@.wf(),
            ed@.settled(),
    {
        let ed = Self {
            pos: 0,
            prompt: prompt_,
            buffer: Buffer::new(),
            w_buffer: String::new(),
            win_size: win_size,
            completer: CompletionArea::new(),
            completions: Vec::new(),
            completer_index: 0,
            completer_is_after: false,
        };
        assert(ed@.completions =~= Seq::<Seq<char>>::empty());
        ed
    }

    /// Empties the line and puts the cursor at its start. Nothing is drawn.
    pub fn reset(&mut self)
        ensures
            final(self)@ == old(self)@.reset(),
    {
        self.pos = 0;
        self.buffer = Buffer::new();
    }

    /// The text of the line.
    pub fn line(&self) -> (s: String)
        ensures
            s@ == self@.buffer,
    {
        self.buffer.as_str()
    }

    /// Puts `s` into the line at the cursor.
    pub fn put(&mut self, s: &str)
        requires
            old(self)@.wf(),
        ensures
            final(self)@ == old(self)@.put(s@),
            final(self)@.wf(),
    {
        let n = s.unicode_len();
        let old_len = self.buffer.len();
        if self.is_last() {
            self.buffer.insert_str(self.pos, s);
            let new_len = self.buffer.len();
            self.write_str(s);
        } else {
            self.buffer.insert_str(self.pos, s);
            let new_len = self.buffer.len();
            let old_pos = self.pos;
            self.clear_to_screen_end();
            let tail = self.buffer.substring(old_pos, new_len);
            self.w_buffer.append(tail.as_str());
            self.move_to(old_pos + n);
        }
    }

    /// Removes the `n` characters left of the cursor. At the start of the
    /// line there is nothing to remove.
    pub fn delete(&mut self, n: usize)
        requires
            old(self)@.wf(),
            old(self).pos >= 1 ==> n <= old(self).pos,
        ensures
            final(self)@ == old(self)@.delete(n as nat),
            final(self)@.wf(),
    {
        if self.is_start() {
            return ;
        }
        let start = self.pos - n;
        match tab_shift_in(&self.buffer, start, self.pos) {
            Some(k) => {
                self.w_buffer.append(terminal::move_left(k).as_str());
            },
            None => {},
        }
        self.buffer.remove(start, self.pos);

        self.move_left(n);
        self.clear_to_screen_end();
        if !self.is_last() {
            let pos = self.pos;
            let tail = self.buffer.substring(pos, self.buffer.len());
            self.w_buffer.append(tail.as_str());
            self.move_to(pos);
        }
    }

    /// Draws the text of the line.
    pub fn write_line(&mut self)
        ensures
            final(self)@ == old(self)@.write_line(),
    {
        self.w_buffer.append(self.buffer.as_str().as_str());
    }

    /// Draws the prompt.
    pub fn write_prompt(&mut self)
        ensures
            final(self)@ == old(self)@.write_prompt(),
    {
        let prompt = self.prompt.clone();
        self.w_buffer.append(prompt.as_str());
    }

    /// Draws `s` and moves the cursor behind it.
    pub fn write_str(&mut self, s: &str)
        requires
            old(self).pos + s@.len() <= usize::MAX,
        ensures
            final(self)@ == old(self)@.write_str(s@),
    {
        self.pos += s.unicode_len();
        self.w_buffer.append(s);
    }

    /// Brings the terminal's cursor back to the editor's.
    pub fn come_back(&mut self)
        ensures
            final(self)@ == old(self)@.come_back(),
    {
        if self.pos == 0 {
            self.move_to_first();
        } else {
            let pos = self.pos;
            self.move_to(pos);
        }
    }

    /// Puts `s` in the place of the line. The cursor keeps its index.
    pub fn replace(&mut self, s: &str)
        ensures
            final(self)@ == old(self)@.replace(s@),
    {
        let _ = self.clear_line();
        self.buffer = Buffer::from_str(s);
        self.write_line();
    }

    /// Draws a line feed.
    pub fn new_line(&mut self)
        ensures
            final(self)@ == old(self)@.new_line(),
    {
        proof {
            reveal_strlit("\n");
        }
        assert("\n"@ =~= seq!['\n']);
        self.w_buffer.append("\n");
    }

    /// Empties the line and wipes it from the screen. The cursor keeps its index.
    pub fn clear_line(&mut self) -> (r: Result<(), std::io::Error>)
        ensures
            r is Ok,
            final(self)@ == old(self)@.clear_line(),
    {
        self.buffer = Buffer::new();
        let old_pos = self.pos;
        self.move_to_first();
        self.clear_to_screen_end();
        self.pos = old_pos;
        Ok(())
    }

    /// Clears the screen and draws the prompt in its first line; the cursor
    /// goes to the start of the line.
    pub fn clear_screen(&mut self)
        ensures
            final(self)@ == old(self)@.clear_screen(),
    {
        self.pos = 0;
        proof {
            reveal_strlit("\x1b[2J\x1b[1;1H");
        }
        assert("\x1b[2J\x1b[1;1H"@ =~= clear_screen_code());
        let mut code = String::from_str("\x1b[2J\x1b[1;1H");
        code.append(self.prompt.as_str());
        self.w_buffer.append(code.as_str());
    }

    /// Clears what the terminal shows behind the cursor.
    pub fn clear_to_screen_end(&mut self)
        ensures
            final(self)@ == old(self)@.clear_to_screen_end(),
    {
        self.w_buffer.append(terminal::clear_to_screen_end().as_str());
    }

    /// Moves the cursor `n` characters to the left, unless it stands at the start.
    pub fn move_left(&mut self, n: usize)
        requires
            old(self).pos >= 1 ==> n <= old(self).pos,
        ensures
            final(self)@ == old(self)@.move_left(n as nat),
    {
        if self.is_start() {
            return ;
        }
        self.pos -= n;
        self.w_buffer.append(terminal::move_left(n).as_str());
    }

    /// Moves the cursor `n` characters to the right, unless it stands at the end.
    pub fn move_right(&mut self, n: usize)
        requires
            old(self)@.pos < old(self)@.buffer.len() ==> old(self)@.pos + n <= old(
                self,
            )@.buffer.len(),
        ensures
            final(self)@ == old(self)@.move_right(n as nat),
            old(self)@.wf() ==> final(self)@.wf(),
    {
        if self.is_last() {
            return ;
        }
        let len = self.buffer.len();
        self.pos += n;
        self.w_buffer.append(terminal::move_right(n).as_str());
    }

    /// Moves the cursor to the start of the line.
    pub fn move_to_first(&mut self)
        ensures
            final(self)@ == old(self)@.move_to(0),
            final(self)@.wf(),
    {
        self.move_to(0);
    }

    /// Moves the cursor behind the last character of the line.
    pub fn move_to_end(&mut self)
        ensures
            final(self)@ == old(self)@.move_to(old(self)@.buffer.len()),
            final(self)@.wf(),
    {
        let n = self.buffer.len();
        self.move_to(n);
    }

    /// Moves the cursor onto the character with index `n`.
    pub fn move_to(&mut self, n: usize)
        ensures
            final(self)@ == old(self)@.move_to(n as nat),
    {
        self.pos = n;
        let col = self.prompt.as_str().unicode_len().saturating_add(n).saturating_add(1);
        self.w_buffer.append(terminal::move_to(col).as_str());
    }

    /// The cursor stands at the start of the line.
    pub fn is_start(&self) -> (b: bool)
        ensures
            b == self@.is_start(),
    {
        self.pos < 1
    }

    /// The cursor stands behind the last character of the line.
    pub fn is_last(&self) -> (b: bool)
        ensures
            b == self@.is_last(),
    {
        self.pos >= self.buffer.len()
    }

    /// Hands out what has been drawn since the last call, to be written to
    /// the terminal in one piece, and starts afresh.
    pub fn display(&mut self) -> (out: String)
        ensures
            out@ == old(self)@.out,
            final(self)@ == (EditorState { out: Seq::empty(), ..old(self)@ }),
    {
        let mut out = String::new();
        std::mem::swap(&mut self.w_buffer, &mut out);
        out
    }

    /// Draws `s`, which is `height` lines high, below the line and brings
    /// the cursor back.
    pub fn write_sub(&mut self, s: &str, height: usize)
        ensures
            final(self)@ == old(self)@.write_sub(s@, height as nat),
    {
        self.w_buffer.append(s);
        self.w_buffer.append(terminal::move_up(height).as_str());
        let pos = self.pos;
        self.move_to(pos);
    }
}

impl Editor {
    /// The column of the character with index `n`.
    fn column(&self, n: usize) -> (col: usize)
        ensures
            col == column(self.prompt@, n as nat),
    {
        self.prompt.as_str().unicode_len().saturating_add(n).saturating_add(1)
    }

    /// The word to complete: the one that ends where the cursor stands.
    pub fn completion_word(&self) -> (word: Option<String>)
        ensures
            match word {
                Some(w) => self@.word_before_cursor() matches Some(span) && w@
                    == self@.buffer.subrange(span.0, span.1),
                None => self@.word_before_cursor() is None,
            },
    {
        let (words, pos) = self.buffer.get_words_and_pos(self.pos);
        if let CursorPosition::OnWordRightEdge(i) = pos {
            let range = words[i];
            assert(crate::readline::buffer::spans(words@)[i as int] == (
                range.0 as int,
                range.1 as int,
            ));
            Some(self.buffer.substring(range.0, range.1))
        } else {
            None
        }
    }

    /// Takes `candidates`, in ascending order, as the candidates of the
    /// completion; `max_len` is the number of characters of the longest.
    pub fn set_completions(&mut self, candidates: Vec<String>, max_len: usize)
        ensures
            sorting_of(final(self)@.completions, texts(candidates@)),
            final(self)@ == old(self)@.installed(final(self)@.completions, max_len as nat),
    {
        let mut candidates = candidates;
        sort_strings(&mut candidates);
        self.completions = candidates;
        self.completer.max_len = max_len;
    }
}

impl Complete for Editor {
    open spec fn state(&self) -> EditorState {
        self@
    }

    /// The completer is asked for the candidates for `completion_word`, and
    /// `set_completions` takes what it answers, with the width that the
    /// completer reports after it has answered.
    fn complete<C: Completer>(&mut self, completer: &mut C)
        ensures
            starts_completion(
                old(self)@,
                final(self)@,
                old(completer).candidates(old(self)@.word_text()),
                final(completer).width(),
            ),
            old(self)@.completing || old(self)@.word_before_cursor() is None ==> *final(completer)
                == *old(completer),
    {
        if self.completer_is_after {
            return ;
        }
        self.completer_is_after = true;

        if let Some(word) = self.completion_word() {
            let candidates = completer.complete(word.as_str());
            let m = completer.max_len();
            let max_len = if m == usize::MAX {
                m - 1
            } else {
                m
            };
            self.set_completions(candidates, max_len);
        }
    }

    fn completion_clear(&mut self)
        ensures
            final(self)@ == old(self)@.completion_clear(),
    {
        if !self.completer_is_after {
            return ;
        }
        self.w_buffer.append(terminal::move_under_line_first(1).as_str());
        self.w_buffer.append(terminal::clear_to_screen_end().as_str());
        self.w_buffer.append(terminal::move_up(1).as_str());
        self.come_back();

        self.completer_index = 0;
        self.completer_is_after = false;
    }

    fn completion_disply(&mut self)
        ensures
            final(self)@ == old(self)@.completion_disply(),
            final(self)@.pos == old(self)@.pos,
            final(self)@.buffer == old(self)@.buffer,
            final(self)@.settled() || final(self)@.index > final(self)@.completions.len(),
    {
        let page_size: usize = PAGE_SIZE;
        let len = self.completions.len();
        let height = if len < page_size {
            len + 1
        } else {
            page_size + 1
        };

        let (words, pos) = self.buffer.get_words_and_pos(self.pos);
        let start = match pos {
            CursorPosition::OnWordRightEdge(i) => {
                assert(crate::readline::buffer::spans(words@)[i as int] == (
                    words@[i as int].0 as int,
                    words@[i as int].1 as int,
                ));
                words[i].0
            },
            _ => 0,
        };
        let completion_start_pos = self.column(start);
        let max_len = self.completer.max_len;

        let completions = self.completer.create_completion_area(
            self.completions.as_slice(),
            self.completer_index,
            completion_start_pos,
            page_size,
            max_len,
        );
        self.write_sub(completions.as_str(), height);
    }

    fn completion_next(&mut self)
        ensures
            final(self)@ == old(self)@.completion_next(),
            old(self)@.completing ==> final(self)@.settled(),
            old(self)@.wf() ==> final(self)@.wf(),
    {
        if !self.completer_is_after {
            return ;
        }
        let index = if self.completer_index >= self.completions.len() {
            self.completer_index = 1;
            0
        } else {
            self.completer_index += 1;
            self.completer_index - 1
        };
        self.swap_completion(index);
        self.completion_disply();
    }

    fn completion_prev(&mut self)
        ensures
            final(self)@ == old(self)@.completion_prev(),
            final(self)@.settled(),
            old(self)@.wf() ==> final(self)@.wf(),
    {
        if !self.completer_is_after {
            return ;
        }
        let index = if self.completer_index <= 1 {
            self.completer_index = self.completions.len();
            self.completer_index
        } else {
            self.completer_index -= 1;
            self.completer_index
        };

        self.swap_completion(index);
        self.completion_disply();
    }

    fn swap_completion(&mut self, index: usize)
        ensures
            final(self)@ == old(self)@.swap_completion(index as nat),
            final(self)@.completions == old(self)@.completions,
            final(self)@.index == old(self)@.index,
            final(self)@.window_first == old(self)@.window_first,
            final(self)@.max_len == old(self)@.max_len,
            final(self)@.completing == old(self)@.completing,
            old(self)@.wf() ==> final(self)@.wf(),
    {
        if index < self.completions.len() {
            let cmd = self.completions[index].clone();
            let (words, pos) = self.buffer.get_words_and_pos(self.pos);
            if let CursorPosition::OnWordRightEdge(i) = pos {
                let range = words[i];
                assert(crate::readline::buffer::spans(words@)[i as int] == (
                    range.0 as int,
                    range.1 as int,
                ));
                self.delete(range.1 - range.0);
                self.put(cmd.as_str());
            }
        }
    }
}

} // verus!
