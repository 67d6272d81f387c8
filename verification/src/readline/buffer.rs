//! The text of the line being edited, and the words it is made of.

use vstd::prelude::*;
use crate::text::{chars_of, string_of};

verus! {

/// Where the cursor stands relative to the words of the line.
///
/// The numbers are indices into the list of words.
#[derive(Debug, Clone, Copy, PartialEq, Eq)]
pub enum CursorPosition {
    /// Strictly inside the word.
    InWord(usize),
    /// On the first character of the word.
    OnWordLeftEdge(usize),
    /// Just behind the last character of the word.
    OnWordRightEdge(usize),
    /// Between words: the word before the cursor and the word after it, where there is one.
    InSpace(Option<usize>, Option<usize>),
}

/// A word as a half-open range of character indices.
pub type Span = (usize, usize);

/// A list of spans as pairs of mathematical integers.
pub open spec fn spans(v: Seq<Span>) -> Seq<(int, int)> {
    v.map_values(|p: Span| (p.0 as int, p.1 as int))
}

/// Looks at the words from the `i`-th on and answers with the first one that
/// the cursor touches, lies in, or stands before; behind the last word the
/// cursor is in the space after it.
pub open spec fn position_from(cursor: int, words: Seq<(int, int)>, i: int) -> CursorPosition
    decreases words.len() - i,
{
    if i < 0 || i >= words.len() {
        CursorPosition::InSpace(Some((words.len() - 1) as usize), None)
    } else if words[i].0 == cursor {
        CursorPosition::OnWordLeftEdge(i as usize)
    } else if words[i].1 == cursor {
        CursorPosition::OnWordRightEdge(i as usize)
    } else if words[i].0 < cursor && cursor < words[i].1 {
        CursorPosition::InWord(i as usize)
    } else if cursor < words[i].0 {
        CursorPosition::InSpace(Some((i - 1) as usize), Some(i as usize))
    } else {
        position_from(cursor, words, i + 1)
    }
}

/// The position of `cursor` among `words`.
pub open spec fn position(cursor: int, words: Seq<(int, int)>) -> CursorPosition {
    if words.len() == 0 {
        CursorPosition::InSpace(None, None)
    } else if cursor < words[0].0 {
        CursorPosition::InSpace(None, Some(0))
    } else {
        position_from(cursor, words, 0)
    }
}

/// Every index that a position names is an index of `words`, and a position on
/// an edge or in a word says the truth about that word.
pub open spec fn position_fits(p: CursorPosition, cursor: int, words: Seq<(int, int)>) -> bool {
    match p {
        CursorPosition::InWord(i) => i < words.len() && words[i as int].0 < cursor
            < words[i as int].1,
        CursorPosition::OnWordLeftEdge(i) => i < words.len() && words[i as int].0 == cursor,
        CursorPosition::OnWordRightEdge(i) => i < words.len() && words[i as int].1 == cursor,
        CursorPosition::InSpace(before, after) => {
            &&& before matches Some(b) ==> b < words.len()
            &&& after matches Some(a) ==> a < words.len() && cursor < words[a as int].0
            &&& before is None && after is None ==> words.len() == 0
        },
    }
}

/// What `position_from` finds fits the words, provided the search did not
/// start at a word that lies behind the cursor.
pub proof fn lemma_position_from_fits(cursor: int, words: Seq<(int, int)>, i: int)
    requires
        0 <= i <= words.len(),
        words.len() > 0,
        words.len() <= usize::MAX,
        i == 0 ==> cursor >= words[0].0,
    ensures
        position_fits(position_from(cursor, words, i), cursor, words),
    decreases words.len() - i,
{
    if i < words.len() {
        if words[i].0 != cursor && words[i].1 != cursor && !(words[i].0 < cursor && cursor
            < words[i].1) && !(cursor < words[i].0) {
            lemma_position_from_fits(cursor, words, i + 1);
        }
    }
}

/// The position of a cursor fits the words it was found among.
pub proof fn lemma_position_fits(cursor: int, words: Seq<(int, int)>)
    requires
        words.len() <= usize::MAX,
    ensures
        position_fits(position(cursor, words), cursor, words),
{
    if words.len() > 0 && cursor >= words[0].0 {
        lemma_position_from_fits(cursor, words, 0);
    }
}

impl CursorPosition {
    /// Finds where `cursor` stands among `words`.
    pub fn get(cursor: usize, words: &[Span]) -> (p: CursorPosition)
        ensures
            p == position(cursor as int, spans(words@)),
            position_fits(p, cursor as int, spans(words@)),
    {
        let ghost w = spans(words@);
        let len = words.len();
        proof {
            lemma_position_fits(cursor as int, w);
        }
        if len == 0 {
            return CursorPosition::InSpace(None, None);
        } else if cursor < words[0].0 {
            return CursorPosition::InSpace(None, Some(0));
        }
        let mut i: usize = 0;
        while i < words.len()
            invariant
                0 <= i <= words.len(),
                words.len() > 0,
                w == spans(words@),
                position(cursor as int, w) == position_from(cursor as int, w, i as int),
            decreases words.len() - i,
        {
            let (start, end) = words[i];
            assert(w[i as int] == (start as int, end as int));
            if start == cursor {
                return CursorPosition::OnWordLeftEdge(i);
            } else if end == cursor {
                return CursorPosition::OnWordRightEdge(i);
            } else if start < cursor && cursor < end {
                return CursorPosition::InWord(i);
            } else if cursor < start {
                assert(i > 0) by {
                    assert(w[0] == (words@[0].0 as int, words@[0].1 as int));
                }
                return CursorPosition::InSpace(Some(i - 1), Some(i));
            }
            i += 1;
        }
        CursorPosition::InSpace(Some(words.len() - 1), None)
    }
}

/// A character that can begin a word: neither a space nor a backslash.
pub open spec fn is_solid(c: char) -> bool {
    c != ' ' && c != '\\'
}

/// The character at `i` is a space that no backslash stands directly before.
pub open spec fn is_break(data: Seq<char>, i: int) -> bool {
    data[i] == ' ' && !(i > 0 && data[i - 1] == '\\')
}

/// The first index from `from` on that holds a solid character, or the length.
pub open spec fn next_solid(data: Seq<char>, from: int) -> int
    decreases data.len() - from,
{
    if from >= data.len() {
        data.len() as int
    } else if from >= 0 && is_solid(data[from]) {
        from
    } else {
        next_solid(data, from + 1)
    }
}

/// The first index from `from` on that holds an unescaped space, or the length.
pub open spec fn next_break(data: Seq<char>, from: int) -> int
    decreases data.len() - from,
{
    if from >= data.len() {
        data.len() as int
    } else if from >= 0 && is_break(data, from) {
        from
    } else {
        next_break(data, from + 1)
    }
}

/// `next_solid` and `next_break` answer with an index between `from` and the length.
pub proof fn lemma_next_bounds(data: Seq<char>, from: int)
    requires
        0 <= from <= data.len(),
    ensures
        from <= next_solid(data, from) <= data.len(),
        from <= next_break(data, from) <= data.len(),
    decreases data.len() - from,
{
    if from < data.len() {
        lemma_next_bounds(data, from + 1);
    }
}

/// The words that begin at index `from` or later: a word begins at the next
/// solid character and runs up to the next unescaped space, or to the end.
pub open spec fn words_from(data: Seq<char>, from: int) -> Seq<(int, int)>
    decreases data.len() + 1 - from,
{
    let start = next_solid(data, from);
    if from < 0 || start >= data.len() {
        Seq::empty()
    } else {
        let end = next_break(data, start + 1);
        proof {
            lemma_next_bounds(data, from);
            lemma_next_bounds(data, start + 1);
        }
        seq![(start, end)] + words_from(data, end + 1)
    }
}

/// The words of a line.
pub open spec fn words(data: Seq<char>) -> Seq<(int, int)> {
    words_from(data, 0)
}

/// The words lie inside the line, none is empty, and they follow one another
/// with at least one character between two of them.
pub open spec fn well_spaced(w: Seq<(int, int)>, from: int, len: int) -> bool {
    &&& forall|k: int| 0 <= k < w.len() ==> from <= (#[trigger] w[k]).0 < w[k].1 <= len
    &&& forall|j: int, k: int| 0 <= j < k < w.len() ==> (#[trigger] w[j]).1 < (#[trigger] w[k]).0
}

/// The words found from `from` on are well spaced.
pub proof fn lemma_words_well_spaced(data: Seq<char>, from: int)
    requires
        0 <= from,
    ensures
        well_spaced(words_from(data, from), from, data.len() as int),
    decreases data.len() + 1 - from,
{
    if from <= data.len() {
        lemma_next_bounds(data, from);
        let start = next_solid(data, from);
        if start < data.len() {
            lemma_next_bounds(data, start + 1);
            let end = next_break(data, start + 1);
            lemma_words_well_spaced(data, end + 1);
            let rest = words_from(data, end + 1);
            let w = words_from(data, from);
            assert(w =~= seq![(start, end)] + rest);
            assert forall|k: int| 0 <= k < w.len() implies from <= (#[trigger] w[k]).0 < w[k].1
                <= data.len() by {
                if k > 0 {
                    assert(w[k] == rest[k - 1]);
                }
            }
            assert forall|j: int, k: int| 0 <= j < k < w.len() implies (#[trigger] w[j]).1 < (
            #[trigger] w[k]).0 by {
                assert(w[k] == rest[k - 1]);
                if j > 0 {
                    assert(w[j] == rest[j - 1]);
                }
            }
        }
    }
}

/// What a position says of a cursor among words that follow one another:
/// on an edge or inside a word the cursor is where the position says, and
/// in a space it lies behind the end of the word before and before the
/// start of the word after, which are neighbours.
pub open spec fn position_means(p: CursorPosition, cursor: int, w: Seq<(int, int)>) -> bool {
    match p {
        CursorPosition::InWord(i) => i < w.len() && w[i as int].0 < cursor < w[i as int].1,
        CursorPosition::OnWordLeftEdge(i) => i < w.len() && w[i as int].0 == cursor,
        CursorPosition::OnWordRightEdge(i) => i < w.len() && w[i as int].1 == cursor,
        CursorPosition::InSpace(None, None) => w.len() == 0,
        CursorPosition::InSpace(None, Some(a)) => a == 0 && w.len() > 0 && cursor < w[0].0,
        CursorPosition::InSpace(Some(b), Some(a)) => a < w.len() && a == b + 1 && w[b as int].1
            < cursor < w[a as int].0,
        CursorPosition::InSpace(Some(b), None) => w.len() > 0 && b == w.len() - 1 && w[b as int].1
            < cursor,
    }
}

/// Among words that follow one another, the search from the `i`-th word on
/// finds what the position means, when all words before end before the cursor.
pub proof fn lemma_position_from_means(cursor: int, w: Seq<(int, int)>, len: int, i: int)
    requires
        well_spaced(w, 0, len),
        w.len() <= usize::MAX,
        w.len() > 0,
        0 <= i <= w.len(),
        i == 0 ==> cursor >= w[0].0,
        forall|j: int| 0 <= j < i ==> (#[trigger] w[j]).1 < cursor,
    ensures
        position_means(position_from(cursor, w, i), cursor, w),
    decreases w.len() - i,
{
    if i < w.len() {
        if w[i].0 != cursor && w[i].1 != cursor && !(w[i].0 < cursor && cursor < w[i].1) {
            if cursor < w[i].0 {
                assert(i > 0);
                assert(w[i - 1].1 < cursor);
            } else {
                assert forall|j: int| 0 <= j < i + 1 implies (#[trigger] w[j]).1 < cursor by {
                    if j < i {
                    }
                }
                lemma_position_from_means(cursor, w, len, i + 1);
            }
        }
    } else {
        assert(w[w.len() - 1].1 < cursor);
    }
}

/// The position of a cursor among the words of a line means what it says.
pub proof fn lemma_position_means(cursor: int, data: Seq<char>)
    requires
        data.len() <= usize::MAX,
    ensures
        position_means(position(cursor, words(data)), cursor, words(data)),
{
    let w = words(data);
    lemma_words_well_spaced(data, 0);
    lemma_words_count(data, 0);
    if w.len() > 0 && cursor >= w[0].0 {
        lemma_position_from_means(cursor, w, data.len() as int, 0);
    }
}

/// A line has no more words than characters.
pub proof fn lemma_words_count(data: Seq<char>, from: int)
    requires
        0 <= from,
    ensures
        words_from(data, from).len() <= if from <= data.len() {
            data.len() - from
        } else {
            0
        },
    decreases data.len() + 1 - from,
{
    if from <= data.len() {
        lemma_next_bounds(data, from);
        let start = next_solid(data, from);
        if start < data.len() {
            lemma_next_bounds(data, start + 1);
            let end = next_break(data, start + 1);
            lemma_words_count(data, end + 1);
            assert(words_from(data, from) =~= seq![(start, end)] + words_from(data, end + 1));
        }
    }
}

/// What the words of a line are: each begins with a solid character, holds
/// no unescaped space, and ends before an unescaped space or at the end of
/// the line; and no solid character from `from` on stands before the first
/// word, or, after a word has ended, between two words or behind the last.
pub proof fn lemma_words_shape(data: Seq<char>, from: int)
    requires
        0 <= from,
    ensures
        forall|k: int|
            0 <= k < words_from(data, from).len() ==> {
                let w = #[trigger] words_from(data, from)[k];
                &&& from <= w.0 < w.1 <= data.len()
                &&& is_solid(data[w.0])
                &&& forall|j: int| w.0 < j < w.1 ==> !is_break(data, j)
                &&& w.1 == data.len() || is_break(data, w.1)
            },
        forall|j: int|
            from <= j < data.len() && is_solid(data[j]) ==> exists|k: int|
                0 <= k < words_from(data, from).len() && (#[trigger] words_from(data, from)[k]).0
                    <= j < words_from(data, from)[k].1,
    decreases data.len() + 1 - from,
{
    let ws = words_from(data, from);
    if from <= data.len() {
        lemma_next_bounds(data, from);
        lemma_next_solid(data, from);
        let start = next_solid(data, from);
        if start < data.len() {
            lemma_next_bounds(data, start + 1);
            lemma_next_break(data, start + 1);
            let end = next_break(data, start + 1);
            lemma_words_shape(data, end + 1);
            let rest = words_from(data, end + 1);
            assert(ws =~= seq![(start, end)] + rest);
            assert forall|k: int| 0 <= k < ws.len() implies {
                let w = #[trigger] ws[k];
                &&& from <= w.0 < w.1 <= data.len()
                &&& is_solid(data[w.0])
                &&& forall|j: int| w.0 < j < w.1 ==> !is_break(data, j)
                &&& w.1 == data.len() || is_break(data, w.1)
            } by {
                if k > 0 {
                    assert(ws[k] == rest[k - 1]);
                }
            }
            assert forall|j: int| from <= j < data.len() && is_solid(data[j]) implies exists|
                k: int,
            |
                0 <= k < ws.len() && (#[trigger] ws[k]).0 <= j < ws[k].1 by {
                if j < end {
                    assert(ws[0].0 <= j < ws[0].1);
                } else {
                    assert(j != end);
                    let k = choose|k: int|
                        0 <= k < rest.len() && (#[trigger] rest[k]).0 <= j < rest[k].1;
                    assert(ws[k + 1] == rest[k]);
                }
            }
        }
    }
}

/// Before the next solid character there is none, and it is one.
pub proof fn lemma_next_solid(data: Seq<char>, from: int)
    requires
        0 <= from <= data.len(),
    ensures
        forall|j: int| from <= j < next_solid(data, from) ==> !is_solid(#[trigger] data[j]),
        next_solid(data, from) < data.len() ==> is_solid(data[next_solid(data, from)]),
    decreases data.len() - from,
{
    if from < data.len() && !is_solid(data[from]) {
        lemma_next_solid(data, from + 1);
    }
}

/// Before the next unescaped space there is none, and it is one.
pub proof fn lemma_next_break(data: Seq<char>, from: int)
    requires
        0 <= from <= data.len(),
    ensures
        forall|j: int| from <= j < next_break(data, from) ==> !is_break(data, j),
        next_break(data, from) < data.len() ==> is_break(data, next_break(data, from)),
    decreases data.len() - from,
{
    if from < data.len() && !is_break(data, from) {
        lemma_next_break(data, from + 1);
    }
}

/// A buffer for the text of the line: a sequence of characters.
pub struct Buffer {
    data: Vec<char>,
}

impl View for Buffer {
    type V = Seq<char>;

    closed spec fn view(&self) -> Seq<char> {
        self.data@
    }
}

impl Clone for Buffer {
    fn clone(&self) -> (r: Self)
        ensures
            r@ == self@,
    {
        Buffer { data: self.data.clone() }
    }
}

impl Default for Buffer {
    fn default() -> (r: Self)
        ensures
            r@ == Seq::<char>::empty(),
    {
        Buffer { data: Vec::new() }
    }
}

impl Buffer {
    /// An empty buffer.
    pub fn new() -> (r: Self)
        ensures
            r@ == Seq::<char>::empty(),
    {
        Buffer { data: Vec::new() }
    }

    /// A buffer that holds the characters of `s`.
    pub fn from_str(s: &str) -> (r: Self)
        ensures
            r@ == s@,
    {
        Buffer { data: chars_of(s) }
    }

    /// The number of characters.
    pub fn len(&self) -> (n: usize)
        ensures
            n == self@.len(),
    {
        self.data.len()
    }

    /// The text as a string.
    pub fn as_str(&self) -> (s: String)
        ensures
            s@ == self@,
    {
        string_of(&self.data)
    }

    /// The characters from `start` up to `end`, as a string.
    pub fn substring(&self, start: usize, end: usize) -> (s: String)
        requires
            start <= end <= self@.len(),
        ensures
            s@ == self@.subrange(start as int, end as int),
    {
        let mut s = String::new();
        let mut i: usize = start;
        while i < end
            invariant
                start <= i <= end <= self.data@.len(),
                s@ == self.data@.subrange(start as int, i as int),
            decreases end - i,
        {
            s.push(self.data[i]);
            assert(self.data@.subrange(start as int, i + 1) =~= self.data@.subrange(
                start as int,
                i as int,
            ).push(self.data@[i as int]));
            i += 1;
        }
        s
    }

    /// The character at index `i`.
    pub fn get(&self, i: usize) -> (c: char)
        requires
            i < self@.len(),
        ensures
            c == self@[i as int],
    {
        self.data[i]
    }

    /// Takes the characters from `start` up to `end` out of the buffer and returns them.
    pub fn remove(&mut self, start: usize, end: usize) -> (removed: Vec<char>)
        requires
            start <= end <= old(self)@.len(),
        ensures
            removed@ == old(self)@.subrange(start as int, end as int),
            final(self)@ == old(self)@.subrange(0, start as int) + old(self)@.subrange(
                end as int,
                old(self)@.len() as int,
            ),
    {
        let mut tail = self.data.split_off(end);
        let removed = self.data.split_off(start);
        self.data.append(&mut tail);
        removed
    }

    /// Puts the characters of `string` into the buffer so that the first of them gets index `idx`.
    pub fn insert_str(&mut self, idx: usize, string: &str)
        requires
            idx <= old(self)@.len(),
        ensures
            final(self)@ == old(self)@.subrange(0, idx as int) + string@ + old(self)@.subrange(
                idx as int,
                old(self)@.len() as int,
            ),
    {
        let mut tail = self.data.split_off(idx);
        let mut middle = chars_of(string);
        self.data.append(&mut middle);
        self.data.append(&mut tail);
    }

    /// The words of the line, in order.
    pub fn get_words(&self) -> (res: Vec<Span>)
        ensures
            spans(res@) == words(self@),
            well_spaced(spans(res@), 0, self@.len() as int),
    {
        let mut res: Vec<Span> = Vec::new();
        let mut word_start: Option<usize> = None;
        let mut is_backslash = false;
        let ghost data = self.data@;
        let mut i: usize = 0;
        while i < self.data.len()
            invariant
                0 <= i <= data.len(),
                data == self.data@,
                is_backslash == (i > 0 && data[i - 1] == '\\'),
                match word_start {
                    None => spans(res@) + words_from(data, i as int) == words(data),
                    Some(st) => {
                        &&& st < i
                        &&& spans(res@) + seq![(st as int, next_break(data, i as int))]
                            + words_from(data, next_break(data, i as int) + 1) == words(data)
                    },
                },
            decreases data.len() - i,
        {
            let c = self.data[i];
            if c == '\\' {
                is_backslash = true;
            } else {
                match word_start {
                    Some(start) => {
                        if c == ' ' && !is_backslash {
                            proof {
                                assert(spans(res@.push((start, i))) =~= spans(res@) + seq![
                                    (start as int, i as int),
                                ]);
                            }
                            res.push((start, i));
                            word_start = None;
                        }
                    },
                    None => {
                        if c != ' ' {
                            word_start = Some(i);
                        }
                    },
                }
                is_backslash = false;
            }
            i += 1;
        }
        proof {
            lemma_words_well_spaced(data, 0);
        }
        if let Some(start) = word_start {
            proof {
                assert(spans(res@.push((start, self.data.len()))) =~= spans(res@) + seq![
                    (start as int, data.len() as int),
                ]);
                assert(words_from(data, data.len() as int + 1) =~= Seq::<(int, int)>::empty());
            }
            res.push((start, self.data.len()));
        }
        assert(spans(res@) =~= words(data));
        res
    }

    /// The words of the line and the position of `cursor` among them.
    pub fn get_words_and_pos(&self, cursor: usize) -> (r: (Vec<Span>, CursorPosition))
        ensures
            spans(r.0@) == words(self@),
            well_spaced(spans(r.0@), 0, self@.len() as int),
            r.1 == position(cursor as int, words(self@)),
            position_fits(r.1, cursor as int, words(self@)),
    {
        let words = self.get_words();
        let pos = CursorPosition::get(cursor, words.as_slice());
        (words, pos)
    }
}

} // verus!
