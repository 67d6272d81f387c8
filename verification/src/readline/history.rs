//! Past lines, and the walk back and forth through them.

use std::collections::VecDeque;
use vstd::prelude::*;

verus! {

/// The direction of a step through the history.
#[derive(Debug, Clone, Copy, PartialEq, Eq, Structural)]
pub enum HistoryCmd {
    /// Towards more recent lines.
    Next,
    /// Towards older lines.
    Prev,
}

/// What a history holds, as mathematical values.
pub struct HistoryState {
    /// The stored lines, the most recent first.
    pub entries: Seq<Seq<char>>,
    /// How many entries the walk has gone back.
    pub pos: nat,
    /// The direction of the last step.
    pub last: HistoryCmd,
    /// The line that was being typed when the walk began.
    pub first: Option<Seq<char>>,
}

impl HistoryState {
    /// The state of a history that holds no line.
    pub open spec fn empty() -> HistoryState {
        HistoryState { entries: Seq::empty(), pos: 0, last: HistoryCmd::Prev, first: None }
    }

    /// The walk has not left the stored lines, and after a step forward it
    /// stands on a stored line or at the start.
    pub open spec fn wf(self) -> bool {
        &&& self.pos <= self.entries.len()
        &&& self.last == HistoryCmd::Next ==> self.pos == 0 || self.pos < self.entries.len()
    }

    /// The state in which nothing has been shown yet.
    pub open spec fn at_rest(self) -> bool {
        self.pos == 0 && self.last == HistoryCmd::Prev && self.first is None
    }

    /// One step back: the state after it and the line to show. A step back
    /// that follows a step forward first moves over the line that is on show.
    pub open spec fn prev(self) -> (HistoryState, Option<Seq<char>>) {
        let pos = if self.last == HistoryCmd::Next && self.pos != 0 {
            self.pos + 1
        } else {
            self.pos
        };
        if pos < self.entries.len() {
            (
                HistoryState { pos: pos + 1, last: HistoryCmd::Prev, ..self },
                Some(self.entries[pos as int]),
            )
        } else {
            (HistoryState { pos: pos, last: HistoryCmd::Prev, ..self }, None)
        }
    }

    /// One step forward: the state after it and the line to show. A step
    /// forward that follows a step back first moves over the line that is on
    /// show; at the start the line to show is the one that was being typed.
    pub open spec fn next(self) -> (HistoryState, Option<Seq<char>>) {
        let pos = if self.last == HistoryCmd::Prev && self.pos != 0 {
            (self.pos - 1) as nat
        } else {
            self.pos
        };
        if pos == 0 {
            (HistoryState { pos: 0, last: HistoryCmd::Next, ..self }, self.first)
        } else {
            (
                HistoryState { pos: (pos - 1) as nat, last: HistoryCmd::Next, ..self },
                Some(self.entries[pos - 1]),
            )
        }
    }

    /// The state after `line` has been stored.
    pub open spec fn push(self, line: Seq<char>) -> HistoryState {
        HistoryState { entries: seq![line] + self.entries, ..self }
    }

    /// The state after the walk has been given up.
    pub open spec fn reset(self) -> HistoryState {
        HistoryState { pos: 0, last: HistoryCmd::Prev, first: None, ..self }
    }
}

/// The state after `k` steps back.
pub open spec fn back(s: HistoryState, k: nat) -> HistoryState
    decreases k,
{
    if k == 0 {
        s
    } else {
        back(s, (k - 1) as nat).prev().0
    }
}

/// The state after `k` steps forward.
pub open spec fn forth(s: HistoryState, k: nat) -> HistoryState
    decreases k,
{
    if k == 0 {
        s
    } else {
        forth(s, (k - 1) as nat).next().0
    }
}

/// From the start of a walk, `k` steps back lead `k` lines into the
/// history, and the last of them shows the `k`-th line.
pub proof fn lemma_back(s: HistoryState, k: nat)
    requires
        s.wf(),
        s.pos == 0,
        s.last == HistoryCmd::Prev,
        k <= s.entries.len(),
    ensures
        back(s, k) == (HistoryState { pos: k, ..s }),
        k >= 1 ==> back(s, (k - 1) as nat).prev().1 == Some(s.entries[k - 1]),
    decreases k,
{
    if k >= 1 {
        lemma_back(s, (k - 1) as nat);
    }
}

/// After `k` steps back, `j` steps forward, fewer than `k`, lead to the
/// line `j` places more recent, which the last of them shows.
pub proof fn lemma_forth(s: HistoryState, k: nat, j: nat)
    requires
        s.wf(),
        s.pos == 0,
        s.last == HistoryCmd::Prev,
        1 <= j < k <= s.entries.len(),
    ensures
        forth(back(s, k), j) == (HistoryState {
            pos: (k - 1 - j) as nat,
            last: HistoryCmd::Next,
            ..s
        }),
        forth(back(s, k), (j - 1) as nat).next().1 == Some(s.entries[k - 1 - j]),
    decreases j,
{
    lemma_back(s, k);
    if j >= 2 {
        lemma_forth(s, k, (j - 1) as nat);
    }
}

/// Walking back through the history and as many steps forward again ends
/// where it began: the last step forward shows the line that was being
/// typed, however many lines the walk went back.
pub proof fn lemma_walk_returns(s: HistoryState, k: nat)
    requires
        s.wf(),
        s.pos == 0,
        s.last == HistoryCmd::Prev,
        1 <= k <= s.entries.len(),
    ensures
        forth(back(s, k), (k - 1) as nat).next().1 == s.first,
        forth(back(s, k), k).pos == 0,
        forth(back(s, k), k).entries == s.entries,
        forth(back(s, k), k).first == s.first,
{
    lemma_back(s, k);
    if k >= 2 {
        lemma_forth(s, k, (k - 1) as nat);
    }
}

/// The line that an optional string stands for.
pub open spec fn shown(line: Option<&String>) -> Option<Seq<char>> {
    match line {
        Some(s) => Some(s@),
        None => None,
    }
}

/// The lines that were submitted, and the place of a walk through them.
pub struct History {
    list: VecDeque<String>,
    pos: usize,
    prev: HistoryCmd,
    first: Option<String>,
}

impl View for History {
    type V = HistoryState;

    closed spec fn view(&self) -> HistoryState {
        HistoryState {
            entries: self.list@.map_values(|s: String| s@),
            pos: self.pos as nat,
            last: self.prev,
            first: match self.first {
                Some(s) => Some(s@),
                None => None,
            },
        }
    }
}

impl History {
    /// An empty history.
    pub fn new() -> (h: History)
        ensures
            h@ == HistoryState::empty(),
            h@.wf(),
    {
        let h = History { list: VecDeque::new(), pos: 0, prev: HistoryCmd::Prev, first: None };
        assert(h@.entries =~= Seq::<Seq<char>>::empty());
        assert(h@ == HistoryState::empty());
        h
    }

    /// Gives up the walk: the next step starts from the most recent line
    /// again. The stored lines stay.
    pub fn reset(&mut self)
        requires
            old(self)@.wf(),
        ensures
            final(self)@ == old(self)@.reset(),
            final(self)@.at_rest(),
            final(self)@.wf(),
    {
        self.pos = 0;
        self.prev = HistoryCmd::Prev;
        self.first = None;
    }

    /// Steps towards the more recent lines and returns the line to show, if
    /// there is one.
    pub fn next(&mut self) -> (line: Option<&String>)
        requires
            old(self)@.wf(),
        ensures
            final(self)@.wf(),
            final(self)@ == old(self)@.next().0,
            shown(line) == old(self)@.next().1,
    {
        if self.prev == HistoryCmd::Prev {
            if self.pos != 0 {
                self.pos -= 1;
            }
            self.prev = HistoryCmd::Next;
        }
        if self.pos == 0 {
            return match &self.first {
                Some(s) => Some(s),
                None => None,
            };
        }
        self.pos -= 1;
        Some(&self.list[self.pos])
    }

    /// Steps towards the older lines and returns the line to show, if there
    /// is an older one.
    pub fn prev(&mut self) -> (line: Option<&String>)
        requires
            old(self)@.wf(),
        ensures
            final(self)@.wf(),
            final(self)@ == old(self)@.prev().0,
            shown(line) == old(self)@.prev().1,
    {
        let len = self.list.len();
        if self.prev == HistoryCmd::Next {
            self.prev = HistoryCmd::Prev;
            if self.pos != 0 {
                self.pos += 1;
            }
        }
        if self.pos >= len {
            return None;
        }
        self.pos += 1;
        Some(&self.list[self.pos - 1])
    }

    /// Stores `s` as the most recent line.
    pub fn push(&mut self, s: String)
        requires
            old(self)@.wf(),
        ensures
            final(self)@ == old(self)@.push(s@),
            final(self)@.wf(),
    {
        self.list.push_front(s);
        assert(self@.entries =~= seq![s@] + old(self)@.entries);
    }

    /// Keeps `s` as the line that was being typed when the walk began.
    pub fn set_first(&mut self, s: String)
        ensures
            final(self)@ == (HistoryState { first: Some(s@), ..old(self)@ }),
    {
        self.first = Some(s);
    }

    /// No line from the history is on show and no typed line is kept.
    pub fn is_started(&self) -> (b: bool)
        ensures
            b == (self@.pos == 0 && self@.first is None),
    {
        self.pos == 0 && self.first.is_none()
    }

    /// Forgets the line that was kept by `set_first`.
    pub fn reset_first(&mut self)
        ensures
            final(self)@ == (HistoryState { first: None, ..old(self)@ }),
    {
        if self.first.is_some() {
            self.first = None;
        }
    }

    /// How many lines the walk has gone back.
    pub fn pos(&self) -> (n: usize)
        ensures
            n == self@.pos,
    {
        self.pos
    }

    /// The number of stored lines.
    pub fn len(&self) -> (n: usize)
        ensures
            n == self@.entries.len(),
    {
        self.list.len()
    }
}

} // verus!
