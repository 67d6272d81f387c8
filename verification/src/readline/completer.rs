//! Candidates for the word under the cursor, and the overlay that lists them.

use vstd::prelude::*;
use crate::readline::color;
use crate::text::{chars_of, texts};
use crate::readline::terminal;
use crate::readline::terminal::control_sequence;
use crate::readline::color::{painted, white_code, light_blue_code, dark_blue_code, gray_code};

verus! {

/// A source of completions for a word.
///
/// A completer answers from what it holds: what it needs from outside, it
/// is given before it is asked.
pub trait Completer {
    /// The candidates that the completer, as it stands, has for `path`.
    spec fn candidates(&self, path: Seq<char>) -> Seq<Seq<char>>;

    /// The width that the completer, as it stands, reports.
    spec fn width(&self) -> usize;

    /// The candidates for `path`.
    fn complete(&mut self, path: &str) -> (res: Vec<String>)
        ensures
            texts(res@) == old(self).candidates(path@),
    ;

    /// The number of characters of the longest candidate that the last call
    /// of `complete` returned.
    fn max_len(&self) -> (n: usize)
        ensures
            n == self.width(),
    ;
}

/// `s`, followed by as many spaces as it lacks to be `width` characters long.
pub open spec fn padded(s: Seq<char>, width: nat) -> Seq<char> {
    if s.len() >= width {
        s
    } else {
        s + Seq::new((width - s.len()) as nat, |i: int| ' ')
    }
}

/// Pads `s` with spaces on the right up to `width` characters.
pub fn pad(s: &str, width: usize) -> (r: String)
    ensures
        r@ == padded(s@, width as nat),
{
    let mut r = String::from_str(s);
    let len = s.unicode_len();
    let mut n: usize = len;
    while n < width
        invariant
            len == s@.len(),
            len <= n,
            len < width ==> n <= width,
            len >= width ==> n == len,
            r@ == s@ + Seq::new((n - len) as nat, |i: int| ' '),
        decreases width - n,
    {
        r.push(' ');
        n += 1;
        assert(r@ =~= s@ + Seq::new((n - len) as nat, |i: int| ' '));
    }
    assert(r@ =~= padded(s@, width as nat));
    r
}

/// With more than `2 * page_size - 1` candidates no overlay is drawn.
pub open spec fn overlay_hidden(len: nat, page_size: nat) -> bool {
    len > 2 * page_size - 1
}

/// The part of the candidate list that the overlay shows.
pub struct Window {
    /// Index of the candidate in the first row.
    pub first: int,
    /// Number of rows.
    pub rows: int,
    /// First row of the scroll bar.
    pub bar_start: int,
    /// Last row of the scroll bar.
    pub bar_end: int,
}

/// Where the window begins once it has followed the highlight `pos`
/// (which counts from 1): a highlight below the window pulls the window's
/// end onto it, one above pulls the window's start onto it, and one on the
/// row just above the window sends the window back to the top.
pub open spec fn scrolled_first(first: nat, pos: nat, page_size: nat) -> int {
    if pos >= first + page_size {
        pos - page_size
    } else if pos < first {
        pos - 1
    } else if pos == first {
        0
    } else {
        first as int
    }
}

/// The window for `len` candidates on pages of `page_size` rows.
pub open spec fn window(first: nat, pos: nat, page_size: nat, len: nat) -> Window {
    if page_size < len {
        let f = scrolled_first(first, pos, page_size);
        Window {
            first: f,
            rows: page_size as int,
            bar_start: f,
            bar_end: f + 2 * page_size - len - 1,
        }
    } else {
        Window { first: 0, rows: len as int, bar_start: 0, bar_end: len as int }
    }
}

/// Where the list is longer than a page, a window that lay inside the list
/// lies inside it after it has followed the highlight, and it holds the
/// highlighted candidate; it has not moved if it held that candidate
/// before.
pub proof fn lemma_window_follows(first: nat, pos: nat, page_size: nat, len: nat)
    requires
        page_size < len <= 2 * page_size - 1,
        first + page_size <= len,
        1 <= pos <= len,
    ensures
        window_fits(window(first, pos, page_size, len), len),
        window(first, pos, page_size, len).first <= pos - 1 < window(
            first,
            pos,
            page_size,
            len,
        ).first + page_size,
        first <= pos - 1 < first + page_size ==> window(first, pos, page_size, len).first == first,
{
}

/// The window lies inside the list of candidates.
pub open spec fn window_fits(w: Window, len: nat) -> bool {
    0 <= w.first && 0 <= w.rows && w.first + w.rows <= len
}

/// Row `i` of the overlay: the candidate, padded to `width` and highlighted
/// where it is the chosen one, then the kind of the candidate, then one cell
/// of the scroll bar.
pub open spec fn row(
    text: Seq<char>,
    i: int,
    w: Window,
    pos: nat,
    start_pos: nat,
    width: nat,
) -> Seq<char> {
    control_sequence(start_pos, 'G') + painted(
        if (pos == 0 && i == 0) || i + w.first + 1 == pos {
            white_code()
        } else {
            light_blue_code()
        },
        padded(text, width),
    ) + painted(dark_blue_code(), seq![' ', 'b', 'i', 'n', ' ']) + painted(
        if w.bar_start <= i <= w.bar_end {
            gray_code()
        } else {
            light_blue_code()
        },
        seq![' '],
    ) + seq!['\n']
}

/// The first `n` rows of the overlay.
pub open spec fn rows(
    completions: Seq<Seq<char>>,
    w: Window,
    pos: nat,
    start_pos: nat,
    width: nat,
    n: nat,
) -> Seq<char>
    decreases n,
{
    if n == 0 {
        Seq::empty()
    } else {
        rows(completions, w, pos, start_pos, width, (n - 1) as nat) + row(
            completions[w.first + n - 1],
            n - 1,
            w,
            pos,
            start_pos,
            width,
        )
    }
}

/// The overlay as it is written to the terminal: nothing where it is
/// hidden, else a move to the line below and the rows of the window.
pub open spec fn overlay(
    completions: Seq<Seq<char>>,
    first: nat,
    pos: nat,
    start_pos: nat,
    page_size: nat,
    max_len: nat,
) -> Seq<char> {
    if overlay_hidden(completions.len(), page_size) {
        Seq::empty()
    } else {
        let w = window(first, pos, page_size, completions.len());
        control_sequence(1, 'E') + rows(completions, w, pos, start_pos, max_len + 1, w.rows as nat)
    }
}

/// Appends row `i` of the overlay to `area`.
fn push_row(
    area: &mut String,
    completion: &str,
    i: usize,
    Ghost(w): Ghost<Window>,
    first: usize,
    bar_start: usize,
    bar_end: usize,
    pos: usize,
    start_pos: usize,
    width: usize,
)
    requires
        w.first == first,
        w.bar_start == bar_start,
        w.bar_end == bar_end,
        i + first < usize::MAX,
    ensures
        final(area)@ == old(area)@ + row(
            completion@,
            i as int,
            w,
            pos as nat,
            start_pos as nat,
            width as nat,
        ),
{
    let mut line = terminal::move_to(start_pos);
    let padded_completion = pad(completion, width);
    let name = if (pos == 0 && i == 0) || i + first + 1 == pos {
        color::white(padded_completion.as_str())
    } else {
        color::light_blue(padded_completion.as_str())
    };
    line.append(name.as_str());
    proof {
        reveal_strlit(" bin ");
        reveal_strlit(" ");
        reveal_strlit("\n");
    }
    assert(" bin "@ =~= seq![' ', 'b', 'i', 'n', ' ']);
    assert(" "@ =~= seq![' ']);
    assert("\n"@ =~= seq!['\n']);
    line.append(color::dark_blue(" bin ").as_str());
    let bar = if bar_start <= i && i <= bar_end {
        color::gray(" ")
    } else {
        color::light_blue(" ")
    };
    line.append(bar.as_str());
    line.append("\n");
    assert(line@ =~= row(completion@, i as int, w, pos as nat, start_pos as nat, width as nat));
    area.append(line.as_str());
}

/// The part of `path` behind its last `/`: all of it where it holds none.
pub open spec fn file_name(path: Seq<char>) -> Seq<char>
    decreases path.len(),
{
    if path.len() == 0 {
        Seq::empty()
    } else if path.last() == '/' {
        Seq::empty()
    } else {
        file_name(path.drop_last()).push(path.last())
    }
}

/// The pieces of `s` between the occurrences of `sep`; there is always one
/// piece more than there are separators.
pub open spec fn split(s: Seq<char>, sep: char) -> Seq<Seq<char>>
    decreases s.len(),
{
    if s.len() == 0 {
        seq![Seq::empty()]
    } else {
        let before = split(s.drop_last(), sep);
        if s.last() == sep {
            before.push(Seq::empty())
        } else {
            before.drop_last().push(before.last().push(s.last()))
        }
    }
}

/// `v` without the items that occurred before.
pub open spec fn distinct(v: Seq<Seq<char>>) -> Seq<Seq<char>>
    decreases v.len(),
{
    if v.len() == 0 {
        Seq::empty()
    } else {
        let before = distinct(v.drop_last());
        if before.contains(v.last()) {
            before
        } else {
            before.push(v.last())
        }
    }
}

/// The directories to search, in the order of the search path `env_path`,
/// each one once.
pub open spec fn search_path(env_path: Seq<char>) -> Seq<Seq<char>> {
    distinct(split(env_path, ':'))
}

/// `name` begins with `prefix`.
pub open spec fn has_prefix(name: Seq<char>, prefix: Seq<char>) -> bool {
    prefix.len() <= name.len() && name.subrange(0, prefix.len() as int) == prefix
}

/// The names that begin with `prefix`, in their order.
pub open spec fn matching(names: Seq<Seq<char>>, prefix: Seq<char>) -> Seq<Seq<char>>
    decreases names.len(),
{
    if names.len() == 0 {
        Seq::empty()
    } else {
        let before = matching(names.drop_last(), prefix);
        if has_prefix(names.last(), prefix) {
            before.push(names.last())
        } else {
            before
        }
    }
}

/// The length of the longest of `names`, 0 where there is none.
pub open spec fn longest(names: Seq<Seq<char>>) -> nat
    decreases names.len(),
{
    if names.len() == 0 {
        0
    } else {
        let before = longest(names.drop_last());
        if names.last().len() > before {
            names.last().len()
        } else {
            before
        }
    }
}

/// The pieces with `sep` between them.
pub open spec fn join(pieces: Seq<Seq<char>>, sep: char) -> Seq<char>
    decreases pieces.len(),
{
    if pieces.len() == 0 {
        Seq::empty()
    } else if pieces.len() == 1 {
        pieces[0]
    } else {
        join(pieces.drop_last(), sep) + seq![sep] + pieces.last()
    }
}

/// Splitting loses nothing: no piece holds the separator, and the pieces
/// with the separator between them are the text again.
pub proof fn lemma_split_join(s: Seq<char>, sep: char)
    ensures
        split(s, sep).len() >= 1,
        forall|k: int, i: int|
            0 <= k < split(s, sep).len() && 0 <= i < split(s, sep)[k].len() ==> (
            #[trigger] split(s, sep)[k][i]) != sep,
        join(split(s, sep), sep) == s,
    decreases s.len(),
{
    let pieces = split(s, sep);
    if s.len() == 0 {
        assert(join(pieces, sep) =~= s);
    } else {
        let before = split(s.drop_last(), sep);
        lemma_split_join(s.drop_last(), sep);
        if s.last() == sep {
            assert(pieces.drop_last() =~= before);
            assert(join(pieces, sep) =~= s.drop_last() + seq![sep] + Seq::<char>::empty());
            assert(s.drop_last() + seq![sep] + Seq::<char>::empty() =~= s);
            assert forall|k: int, i: int|
                0 <= k < pieces.len() && 0 <= i < pieces[k].len() implies (#[trigger] pieces[k][i])
                != sep by {
                assert(pieces[k] == before[k]);
                assert(before[k][i] != sep);
            }
        } else {
            let grown = before.last().push(s.last());
            assert(pieces.drop_last() =~= before.drop_last());
            assert(pieces.last() == grown);
            if before.len() == 1 {
                assert(join(before, sep) == before[0]);
                assert(join(pieces, sep) =~= s.drop_last().push(s.last()));
            } else {
                assert(join(before, sep) == join(before.drop_last(), sep) + seq![sep]
                    + before.last());
                assert(join(pieces, sep) =~= (join(before.drop_last(), sep) + seq![sep]
                    + before.last()).push(s.last()));
            }
            assert(s.drop_last().push(s.last()) =~= s);
            assert forall|k: int, i: int|
                0 <= k < pieces.len() && 0 <= i < pieces[k].len() implies (#[trigger] pieces[k][i])
                != sep by {
                if k < pieces.len() - 1 {
                    assert(pieces[k] == before[k]);
                    assert(before[k][i] != sep);
                } else if i < before.last().len() {
                    assert(pieces[k][i] == before[before.len() - 1][i]);
                }
            }
        }
    }
}

/// What is left of a list when each item is kept once: every item of the
/// list, and none twice.
pub proof fn lemma_distinct(v: Seq<Seq<char>>)
    ensures
        distinct(v).no_duplicates(),
        forall|x: Seq<char>| distinct(v).contains(x) <==> v.contains(x),
    decreases v.len(),
{
    let d = distinct(v);
    if v.len() > 0 {
        let before = distinct(v.drop_last());
        lemma_distinct(v.drop_last());
        assert forall|x: Seq<char>| d.contains(x) <==> v.contains(x) by {
            let rest = v.drop_last();
            if v.contains(x) {
                let i = choose|i: int| 0 <= i < v.len() && v[i] == x;
                if i < v.len() - 1 {
                    assert(rest[i] == x);
                    assert(rest.contains(x));
                    assert(before.contains(x));
                    let j = choose|j: int| 0 <= j < before.len() && before[j] == x;
                    assert(d[j] == x);
                    assert(d.contains(x));
                } else if !before.contains(v.last()) {
                    assert(d[d.len() - 1] == x);
                    assert(d.contains(x));
                } else {
                    assert(d == before);
                }
            }
            if d.contains(x) {
                let j = choose|j: int| 0 <= j < d.len() && d[j] == x;
                if j < before.len() {
                    assert(before[j] == x);
                    assert(before.contains(x));
                    assert(rest.contains(x));
                    let i = choose|i: int| 0 <= i < rest.len() && rest[i] == x;
                    assert(v[i] == x);
                    assert(v.contains(x));
                } else {
                    assert(v[v.len() - 1] == x);
                    assert(v.contains(x));
                }
            }
        }
    }
}

/// What is selected: the names that begin with the prefix, each as often
/// as it is among the names.
pub proof fn lemma_matching(names: Seq<Seq<char>>, prefix: Seq<char>)
    ensures
        matching(names, prefix) == names.filter(|n: Seq<char>| has_prefix(n, prefix)),
        forall|i: int|
            0 <= i < matching(names, prefix).len() ==> has_prefix(
                #[trigger] matching(names, prefix)[i],
                prefix,
            ),
    decreases names.len(),
{
    reveal(Seq::filter);
    let keep = |n: Seq<char>| has_prefix(n, prefix);
    if names.len() > 0 {
        lemma_matching(names.drop_last(), prefix);
    }
    assert(matching(names, prefix) == names.filter(keep));
}

/// There is at least one piece.
pub proof fn lemma_split_nonempty(s: Seq<char>, sep: char)
    ensures
        split(s, sep).len() >= 1,
    decreases s.len(),
{
    if s.len() > 0 {
        lemma_split_nonempty(s.drop_last(), sep);
    }
}

/// The part of `path` behind its last separator.
pub fn file_name_of(path: &str) -> (name: String)
    ensures
        name@ == file_name(path@),
{
    let chars = chars_of(path);
    let mut name = String::new();
    let mut i: usize = 0;
    while i < chars.len()
        invariant
            0 <= i <= chars.len(),
            chars@ == path@,
            name@ == file_name(chars@.take(i as int)),
        decreases chars.len() - i,
    {
        let c = chars[i];
        assert(chars@.take(i + 1).drop_last() =~= chars@.take(i as int));
        if c == '/' {
            name = String::new();
        } else {
            name.push(c);
        }
        i += 1;
    }
    assert(chars@.take(i as int) =~= chars@);
    name
}

/// `item` is among `list`.
fn holds(list: &Vec<String>, item: &String) -> (b: bool)
    ensures
        b == texts(list@).contains(item@),
{
    let mut i: usize = 0;
    while i < list.len()
        invariant
            0 <= i <= list.len(),
            forall|j: int| 0 <= j < i ==> texts(list@)[j] != item@,
        decreases list.len() - i,
    {
        if list[i] == *item {
            assert(texts(list@)[i as int] == item@);
            return true;
        }
        i += 1;
    }
    false
}

/// The directories named by the search path `env_path`, each one once.
pub fn search_dirs(env_path: &str) -> (dirs: Vec<String>)
    ensures
        texts(dirs@) == search_path(env_path@),
{
    let chars = chars_of(env_path);
    let mut dirs: Vec<String> = Vec::new();
    let mut piece = String::new();
    let mut i: usize = 0;
    assert(texts(dirs@) =~= Seq::<Seq<char>>::empty());
    assert(split(chars@.take(0), ':') =~= seq![Seq::<char>::empty()]);
    while i < chars.len()
        invariant
            0 <= i <= chars.len(),
            chars@ == env_path@,
            split(chars@.take(i as int), ':').len() >= 1,
            piece@ == split(chars@.take(i as int), ':').last(),
            texts(dirs@) == distinct(split(chars@.take(i as int), ':').drop_last()),
        decreases chars.len() - i,
    {
        let c = chars[i];
        let ghost before = split(chars@.take(i as int), ':');
        proof {
            assert(chars@.take(i + 1).drop_last() =~= chars@.take(i as int));
            lemma_split_nonempty(chars@.take(i + 1), ':');
        }
        if c == ':' {
            proof {
                assert(before.push(Seq::<char>::empty()).drop_last() =~= before);
                assert(before.drop_last().push(before.last()) =~= before);
                assert(before.drop_last() =~= before.drop_last());
            }
            if !holds(&dirs, &piece) {
                proof {
                    assert(texts(dirs@.push(piece)) =~= texts(dirs@).push(piece@));
                }
                dirs.push(piece);
            }
            piece = String::new();
        } else {
            proof {
                assert(before.drop_last().push(before.last().push(c)).drop_last()
                    =~= before.drop_last());
            }
            piece.push(c);
        }
        i += 1;
    }
    proof {
        assert(chars@.take(i as int) =~= chars@);
        let all = split(chars@, ':');
        assert(all.drop_last().push(all.last()) =~= all);
    }
    if !holds(&dirs, &piece) {
        proof {
            assert(texts(dirs@.push(piece)) =~= texts(dirs@).push(piece@));
        }
        dirs.push(piece);
    }
    dirs
}

/// `name` begins with `prefix`.
fn starts_with(name: &Vec<char>, prefix: &Vec<char>) -> (b: bool)
    ensures
        b == has_prefix(name@, prefix@),
{
    if prefix.len() > name.len() {
        return false;
    }
    let mut i: usize = 0;
    while i < prefix.len()
        invariant
            0 <= i <= prefix.len() <= name.len(),
            name@.subrange(0, i as int) == prefix@.subrange(0, i as int),
        decreases prefix.len() - i,
    {
        if name[i] != prefix[i] {
            assert(name@.subrange(0, prefix.len() as int)[i as int] != prefix@[i as int]);
            return false;
        }
        assert(name@.subrange(0, i + 1) =~= name@.subrange(0, i as int).push(name@[i as int]));
        assert(prefix@.subrange(0, i + 1) =~= prefix@.subrange(0, i as int).push(
            prefix@[i as int],
        ));
        i += 1;
    }
    assert(prefix@.subrange(0, i as int) =~= prefix@);
    true
}

/// Of `names`, those that begin with the file name part of `path`, and
/// the number of characters of the longest of them.
pub fn select(path: &str, names: &Vec<String>) -> (r: (Vec<String>, usize))
    ensures
        texts(r.0@) == matching(texts(names@), file_name(path@)),
        r.1 == longest(texts(r.0@)),
{
    let fname = file_name_of(path);
    let prefix = chars_of(fname.as_str());
    let mut res: Vec<String> = Vec::new();
    let mut len: usize = 0;
    let mut i: usize = 0;
    assert(texts(res@) =~= Seq::<Seq<char>>::empty());
    assert(texts(names@).take(0) =~= Seq::<Seq<char>>::empty());
    while i < names.len()
        invariant
            0 <= i <= names.len(),
            prefix@ == file_name(path@),
            texts(res@) == matching(texts(names@).take(i as int), prefix@),
            len == longest(texts(res@)),
        decreases names.len() - i,
    {
        let name = chars_of(names[i].as_str());
        proof {
            assert(texts(names@).take(i + 1).drop_last() =~= texts(names@).take(i as int));
            assert(texts(names@).take(i + 1).last() == names@[i as int]@);
        }
        if starts_with(&name, &prefix) {
            let n = name.len();
            proof {
                assert(texts(res@.push(names@[i as int])) =~= texts(res@).push(names@[i as int]@));
                assert(texts(res@).push(names@[i as int]@).drop_last() =~= texts(res@));
            }
            if n > len {
                len = n;
            }
            res.push(names[i].clone());
        }
        i += 1;
    }
    assert(texts(names@).take(i as int) =~= texts(names@));
    (res, len)
}

/// Completion of program names from the directories of the search path.
///
/// The completer does not read the directories itself: it is given their
/// entries and completes from what it was given last.
#[derive(Debug)]
pub struct Bin {
    /// The number of characters of the longest candidate of the last completion.
    pub max_len: usize,
    /// The names of the entries of the directories of the search path.
    pub entries: Vec<String>,
}

impl Bin {
    /// A completer that knows no entries yet.
    pub fn new() -> (r: Self)
        ensures
            r.max_len == 0,
            r.entries@ == Seq::<String>::empty(),
    {
        Self { max_len: 0, entries: Vec::new() }
    }

    /// Takes `names` as the entries of the directories of the search path.
    pub fn set_entries(&mut self, names: Vec<String>)
        ensures
            final(self).entries@ == names@,
            final(self).max_len == old(self).max_len,
    {
        self.entries = names;
    }
}

impl Completer for Bin {
    open spec fn candidates(&self, path: Seq<char>) -> Seq<Seq<char>> {
        matching(texts(self.entries@), file_name(path))
    }

    open spec fn width(&self) -> usize {
        self.max_len
    }

    fn max_len(&self) -> (n: usize)
        ensures
            n == self.max_len,
    {
        self.max_len
    }

    /// The candidates are the entries that begin with the file name part of
    /// `path`, in the order of the entries. They depend on the entries and
    /// on `path` alone.
    fn complete(&mut self, path: &str) -> (res: Vec<String>)
        ensures
            texts(res@) == matching(texts(old(self).entries@), file_name(path@)),
            final(self).max_len == longest(texts(res@)),
            final(self).entries@ == old(self).entries@,
    {
        let (res, len) = select(path, &self.entries);
        self.max_len = len;
        res
    }
}

impl Default for Bin {
    fn default() -> (r: Self)
        ensures
            r.max_len == 0,
            r.entries@ == Seq::<String>::empty(),
    {
        Self { max_len: 0, entries: Vec::new() }
    }
}

/// The paginated overlay that lists the candidates below the line.
#[derive(Debug)]
pub struct CompletionArea {
    pub max_len: usize,
    /// Index of the candidate that the first row of the overlay shows.
    pub completion_area_first: usize,
}

impl Default for CompletionArea {
    fn default() -> (r: Self)
        ensures
            r.max_len == 0,
            r.completion_area_first == 0,
    {
        Self { max_len: 0, completion_area_first: 0 }
    }
}

impl CompletionArea {
    /// An overlay whose window begins at the first candidate.
    pub fn new() -> (r: Self)
        ensures
            r.max_len == 0,
            r.completion_area_first == 0,
    {
        Self { max_len: 0, completion_area_first: 0 }
    }

    /// Draws the overlay for `completions` with the `pos`-th of them
    /// highlighted (`pos` counts from 1; 0 highlights the first row), each
    /// row beginning in column `start_pos`, and moves the window so that it
    /// holds the highlight.
    ///
    /// ```text
    ///    start_pos           kind  scroll bar
    ///       |                  |      |
    ///       v                  v      v
    ///   +-> +----------------+------+--+
    /// p |   |  completion1   | bin  |  | <---- completion_area_first
    /// a |   +----------------+------+  |
    /// g |   |  completion2   | bin  |  | <---- pos
    /// e |   +----------------+------+--+
    /// | |   |  completion3   | bin  |  |
    /// s |   +----------------+------+  |
    /// i |   |  completion4   | bin  |  |
    /// z |   +----------------+------+  |
    /// e |   |  completion5   | bin  |  |
    ///   +-> +----------------+------+--+
    /// ```
    pub fn create_completion_area(
        &mut self,
        completions: &[String],
        pos: usize,
        start_pos: usize,
        page_size: usize,
        max_len: usize,
    ) -> (area: String)
        requires
            max_len < usize::MAX,
            !overlay_hidden(completions@.len(), page_size as nat) ==> window_fits(
                window(
                    old(self).completion_area_first as nat,
                    pos as nat,
                    page_size as nat,
                    completions@.len(),
                ),
                completions@.len(),
            ),
        ensures
            area@ == overlay(
                texts(completions@),
                old(self).completion_area_first as nat,
                pos as nat,
                start_pos as nat,
                page_size as nat,
                max_len as nat,
            ),
            final(self).max_len == old(self).max_len,
            final(self).completion_area_first == (if overlay_hidden(
                completions@.len(),
                page_size as nat,
            ) {
                old(self).completion_area_first as int
            } else {
                window(
                    old(self).completion_area_first as nat,
                    pos as nat,
                    page_size as nat,
                    completions@.len(),
                ).first
            }),
    {
        let len = completions.len();
        let mut completion_area = String::new();
        // `len > 2 * page_size - 1`, written so that nothing overflows.
        if len >= page_size && len - page_size >= page_size {
            return completion_area;
        }
        let ghost w = window(
            self.completion_area_first as nat,
            pos as nat,
            page_size as nat,
            len as nat,
        );
        let ghost items = texts(completions@);
        completion_area.append(terminal::move_under_line_first(1).as_str());

        let is_needed_scroll = page_size < len;
        let mut scroll_bar_start: usize = 0;
        let mut scroll_bar_end: usize = len;
        let count: usize;

        if is_needed_scroll {
            let first = self.completion_area_first;
            let is_overed = pos >= first && pos - first >= page_size;
            let is_undered = pos < first;
            let is_head = pos == first;
            // Move a window edge.
            if is_overed {
                self.completion_area_first = pos - page_size;
            } else if is_undered {
                self.completion_area_first = pos - 1;
            } else if is_head {
                self.completion_area_first = 0;
            }
            let blank_n = len - page_size + 1;
            scroll_bar_start = self.completion_area_first;
            scroll_bar_end = self.completion_area_first + page_size - blank_n;
            count = page_size;
        } else {
            self.completion_area_first = 0;
            count = len;
        }
        let first = self.completion_area_first;
        assert(w.first == first && w.rows == count && w.bar_start == scroll_bar_start && w.bar_end
            == scroll_bar_end);

        let mut i: usize = 0;
        while i < count
            invariant
                0 <= i <= count,
                first + count <= len,
                len == completions@.len(),
                items == texts(completions@),
                max_len < usize::MAX,
                w.first == first && w.rows == count && w.bar_start == scroll_bar_start && w.bar_end
                    == scroll_bar_end,
                completion_area@ == control_sequence(1, 'E') + rows(
                    items,
                    w,
                    pos as nat,
                    start_pos as nat,
                    (max_len + 1) as nat,
                    i as nat,
                ),
            decreases count - i,
        {
            let completion = &completions[first + i];
            assert(items[first + i] == completion@);
            push_row(
                &mut completion_area,
                completion.as_str(),
                i,
                Ghost(w),
                first,
                scroll_bar_start,
                scroll_bar_end,
                pos,
                start_pos,
                max_len + 1,
            );
            i += 1;
        }
        completion_area
    }
}

} // verus!
