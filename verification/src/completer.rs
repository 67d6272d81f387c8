//! A plain completer: the candidates in one row below the line, the chosen
//! one highlighted.
//!
//! The completer does not read the directories of the search path and
//! writes nothing: it is given the names and returns what is to be written.

use vstd::prelude::*;
use crate::readline::completer::{file_name, join, matching, select};
use crate::readline::terminal;
use crate::readline::terminal::control_sequence;
use crate::text::texts;

verus! {

/// What a completer holds, as mathematical values.
pub struct CompleterState {
    /// The candidates; none while no completion is under way.
    pub result: Option<Seq<Seq<char>>>,
    /// The chosen candidate, counted from 1; 0 before the first is chosen.
    pub n: nat,
    /// The number of lines that the row of candidates takes.
    pub height: nat,
}

/// The sequence that ends the highlighting of a candidate.
pub open spec fn plain_code() -> Seq<char> {
    seq!['\x1b', '[', '0', 'm']
}

/// The sequence that begins the highlighting of a candidate.
pub open spec fn highlight_code() -> Seq<char> {
    seq!['\x1b', '[', '7', 'm']
}

/// A candidate as it stands in the row: followed by a space, and
/// highlighted where it is the chosen one.
pub open spec fn cell(text: Seq<char>, chosen: bool) -> Seq<char> {
    if chosen {
        highlight_code() + text + plain_code() + seq![' ']
    } else {
        text + seq![' ']
    }
}

/// The first `k` candidates in a row, the `n`-th of them highlighted.
pub open spec fn row(items: Seq<Seq<char>>, n: nat, k: nat) -> Seq<char>
    decreases k,
{
    if k == 0 {
        Seq::empty()
    } else {
        row(items, n, (k - 1) as nat) + cell(items[k - 1], k == n)
    }
}

/// The number of lines that `items`, with a space between them, take on a
/// terminal of `columns` columns; the largest number where that does not fit.
pub open spec fn lines(items: Seq<Seq<char>>, columns: nat) -> nat {
    let rows = join(items, ' ').len() / columns + 1;
    if rows <= usize::MAX {
        rows
    } else {
        usize::MAX as nat
    }
}

impl CompleterState {
    /// The candidates are forgotten.
    pub open spec fn clear(self) -> CompleterState {
        CompleterState { result: None, n: 0, height: 0 }
    }

    /// What wipes the row from the screen; nothing without candidates.
    pub open spec fn wipe(self) -> Seq<char> {
        if self.result is Some {
            control_sequence(1, 'E') + control_sequence(0, 'J') + control_sequence(1, 'A')
        } else {
            Seq::empty()
        }
    }

    /// The candidates are those of `names` that begin with the file name
    /// part of `path`, unless there are candidates already.
    pub open spec fn complete(
        self,
        path: Seq<char>,
        names: Seq<Seq<char>>,
        columns: nat,
    ) -> CompleterState {
        if self.result is Some {
            self
        } else {
            CompleterState {
                result: Some(matching(names, file_name(path))),
                height: lines(matching(names, file_name(path)), columns),
                ..self
            }
        }
    }

    /// The row of candidates below the line, and the way back up.
    pub open spec fn show(self) -> Seq<char> {
        control_sequence(1, 'E') + row(self.result->0, self.n, self.result->0.len())
            + control_sequence(self.height, 'A')
    }

    /// The choice moves on: the state after it and the chosen candidate.
    /// Behind the last candidate the first is chosen again.
    pub open spec fn next(self) -> (CompleterState, Option<Seq<char>>) {
        match self.result {
            Some(items) => {
                if self.n < items.len() {
                    (CompleterState { n: self.n + 1, ..self }, Some(items[self.n as int]))
                } else {
                    (
                        CompleterState { n: 1, ..self },
                        if items.len() > 0 {
                            Some(items[0])
                        } else {
                            None
                        },
                    )
                }
            },
            None => (self, None),
        }
    }
}

/// Stepping through the candidates comes round: from the start, the
/// `k`-th step chooses the `k`-th candidate, and the step behind the last
/// chooses the first again.
pub proof fn lemma_next_cycles(s: CompleterState, k: nat)
    requires
        s.result is Some,
        s.n == k,
        k <= s.result->0.len(),
        s.result->0.len() > 0,
    ensures
        k < s.result->0.len() ==> s.next().1 == Some(s.result->0[k as int]) && s.next().0.n == k
            + 1,
        k == s.result->0.len() ==> s.next().1 == Some(s.result->0[0]) && s.next().0.n == 1,
        s.next().0.result == s.result,
        1 <= s.next().0.n <= s.result->0.len(),
{
}

/// Completion of program names, shown in one row.
pub struct Completer {
    /// The candidates; none while no completion is under way.
    pub result: Option<Vec<String>>,
    /// The chosen candidate, counted from 1.
    pub n: usize,
    /// The number of lines that the row of candidates takes.
    pub height: usize,
}

impl View for Completer {
    type V = CompleterState;

    open spec fn view(&self) -> CompleterState {
        CompleterState {
            result: match self.result {
                Some(v) => Some(texts(v@)),
                None => None,
            },
            n: self.n as nat,
            height: self.height as nat,
        }
    }
}

/// The texts of `v` with a space between them.
fn joined(v: &Vec<String>) -> (s: String)
    ensures
        s@ == join(texts(v@), ' '),
{
    let mut s = String::new();
    let mut i: usize = 0;
    let ghost items = texts(v@);
    assert(items.take(0) =~= Seq::<Seq<char>>::empty());
    while i < v.len()
        invariant
            0 <= i <= v.len(),
            items == texts(v@),
            s@ == join(items.take(i as int), ' '),
        decreases v.len() - i,
    {
        proof {
            assert(items.take(i + 1).drop_last() =~= items.take(i as int));
            assert(items.take(i + 1).last() == v@[i as int]@);
        }
        if i > 0 {
            s.push(' ');
        }
        s.append(v[i].as_str());
        proof {
            if i == 0 {
                assert(s@ =~= items.take(1)[0]);
            }
        }
        i += 1;
    }
    assert(items.take(i as int) =~= items);
    s
}

impl Completer {
    /// A completer without candidates.
    pub fn new() -> (c: Self)
        ensures
            c@ == (CompleterState { result: None, n: 0, height: 0 }),
    {
        Completer { result: None, n: 0, height: 0 }
    }

    /// Forgets the candidates and returns what wipes their row from the screen.
    pub fn clear(&mut self) -> (out: String)
        ensures
            final(self)@ == old(self)@.clear(),
            out@ == old(self)@.wipe(),
    {
        self.n = 0;
        self.height = 0;
        let mut out = String::new();
        if self.result.is_some() {
            out.append(terminal::move_under_line_first(1).as_str());
            out.append(terminal::clear_to_screen_end().as_str());
            out.append(terminal::move_up(1).as_str());
        }
        self.result = None;
        out
    }

    /// Takes as candidates those of `names`, the entries of the directories
    /// of the search path, that begin with the file name part of `path`,
    /// for a terminal of `columns` columns. With candidates at hand nothing
    /// changes.
    pub fn complete(&mut self, path: &str, names: &Vec<String>, columns: u16)
        requires
            columns > 0,
        ensures
            final(self)@ == old(self)@.complete(path@, texts(names@), columns as nat),
    {
        if self.result.is_some() {
            return ;
        }
        let (result, _) = select(path, names);
        let len = joined(&result).as_str().unicode_len();
        self.height = (len / (columns as usize)).saturating_add(1);
        self.result = Some(result);
    }

    /// The row of candidates, with the chosen one highlighted.
    pub fn show(&self) -> (out: String)
        requires
            self@.result is Some,
        ensures
            out@ == self@.show(),
    {
        let mut out = terminal::move_under_line_first(1);
        let ghost head = out@;
        match &self.result {
            Some(result) => {
                let ghost items = texts(result@);
                let mut i: usize = 0;
                while i < result.len()
                    invariant
                        0 <= i <= result.len(),
                        items == texts(result@),
                        out@ == head + row(items, self.n as nat, i as nat),
                    decreases result.len() - i,
                {
                    let ghost before = out@;
                    assert(items[i as int] == result@[i as int]@);
                    if i + 1 == self.n {
                        proof {
                            reveal_strlit("\x1B[7m");
                            reveal_strlit("\x1B[0m ");
                        }
                        assert("\x1B[7m"@ =~= highlight_code());
                        assert("\x1B[0m "@ =~= plain_code() + seq![' ']);
                        out.append("\x1B[7m");
                        out.append(result[i].as_str());
                        out.append("\x1B[0m ");
                    } else {
                        out.append(result[i].as_str());
                        out.push(' ');
                    }
                    assert(out@ =~= before + cell(items[i as int], i + 1 == self.n));
                    i += 1;
                }
            },
            None => {},
        }
        out.append(terminal::move_up(self.height).as_str());
        out
    }

    /// Moves the choice on and returns the chosen candidate.
    pub fn next(&mut self) -> (cmd: Option<&String>)
        ensures
            final(self)@ == old(self)@.next().0,
            match cmd {
                Some(s) => old(self)@.next().1 == Some(s@),
                None => old(self)@.next().1 is None,
            },
    {
        match &self.result {
            Some(vec) => {
                if self.n < vec.len() {
                    let i = self.n;
                    self.n += 1;
                    assert(texts(vec@)[i as int] == vec@[i as int]@);
                    Some(&vec[i])
                } else {
                    self.n = 1;
                    if vec.len() > 0 {
                        assert(texts(vec@)[0] == vec@[0]@);
                        Some(&vec[0])
                    } else {
                        None
                    }
                }
            },
            None => None,
        }
    }

    /// There are no candidates.
    pub fn is_empty(&self) -> (b: bool)
        ensures
            b == (self@.result is None),
    {
        self.result.is_none()
    }
}

} // verus!
