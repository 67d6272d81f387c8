//! The reader: from what the terminal delivers to the line that was typed.
//!
//! The reader does not touch the terminal. Its caller waits for a signal or
//! for input, hands either to the reader, and writes what the reader
//! returns; a line is read by doing so until the reader says that it is
//! complete or was interrupted.

use vstd::prelude::*;
use vstd::utf8::valid_utf8;
use crate::readline::completer::Completer;
use crate::readline::context::{Context, ContextState};
use crate::readline::editor::EditorState;
use crate::readline::event::{is_completion, leads_to, Event, InputError, Kind};
use crate::readline::signal::Signal;

verus! {

/// A key binding: the bytes that the terminal sends, and the kind of event
/// that they stand for.
pub type Binding = (Vec<u8>, Kind);

/// The key bindings as mathematical values.
pub open spec fn bound(table: Seq<Binding>) -> Seq<(Seq<u8>, Kind)> {
    table.map_values(|b: Binding| (b.0@, b.1))
}

/// The key bindings, in the order in which they are tried.
pub open spec fn key_bindings() -> Seq<(Seq<u8>, Kind)> {
    seq![
        (seq![0x0du8], Kind::Enter),
        (seq![0x7fu8], Kind::Delete),
        (seq![0x1bu8, 0x5bu8, 0x41u8], Kind::PreviousHistory),
        (seq![0x1bu8, 0x5bu8, 0x42u8], Kind::NextHistory),
        (seq![0x1bu8, 0x5bu8, 0x43u8], Kind::ForwardChar),
        (seq![0x1bu8, 0x5bu8, 0x44u8], Kind::BackwardChar),
        (seq![0x09u8], Kind::Complete),
        (seq![0x01u8], Kind::BeginningOFLine),
        (seq![0x02u8], Kind::BackwardChar),
        (seq![0x05u8], Kind::EndOfLine),
        (seq![0x06u8], Kind::ForwardChar),
        (seq![0x07u8], Kind::Something),
        (seq![0x0au8], Kind::Enter),
        (seq![0x0bu8], Kind::Something),
        (seq![0x0cu8], Kind::CtrlL),
        (seq![0x0du8], Kind::Enter),
        (seq![0x0eu8], Kind::NextHistory),
        (seq![0x10u8], Kind::PreviousHistory),
        (seq![0x12u8], Kind::Something),
        (seq![0x14u8], Kind::Something),
        (seq![0x19u8], Kind::Something),
        (seq![0x1du8], Kind::Something),
        (seq![0x1bu8, 0x08u8], Kind::Something),
        (seq![0x1bu8, 0x1du8], Kind::Something),
        (seq![0x1bu8, 0x7fu8], Kind::Something),
        (seq![0x1bu8, 0x62u8], Kind::Something),
        (seq![0x1bu8, 0x64u8], Kind::Something),
        (seq![0x1bu8, 0x66u8], Kind::Something),
        (seq![0x1bu8, 0x74u8], Kind::Something),
        (seq![0x1bu8, 0x79u8], Kind::Something),
        (seq![0x1bu8, 0x23u8], Kind::Something),
        (seq![0x1bu8, 0x3cu8], Kind::Something),
        (seq![0x1bu8, 0x3eu8], Kind::Something),
    ]
}

/// The kind of the first binding, from the `i`-th on, whose bytes are `ch`.
pub open spec fn lookup_from(table: Seq<(Seq<u8>, Kind)>, ch: Seq<u8>, i: int) -> Option<Kind>
    decreases table.len() - i,
{
    if i < 0 || i >= table.len() {
        None
    } else if table[i].0 == ch {
        Some(table[i].1)
    } else {
        lookup_from(table, ch, i + 1)
    }
}

/// The kind of event that the input `ch` stands for: that of the first
/// binding whose bytes are exactly `ch`. None where no binding has them.
pub open spec fn lookup(table: Seq<(Seq<u8>, Kind)>, ch: Seq<u8>) -> Option<Kind> {
    lookup_from(table, ch, 0)
}

fn bind1(table: &mut Vec<Binding>, a: u8, kind: Kind)
    ensures
        bound(final(table)@) == bound(old(table)@).push((seq![a], kind)),
{
    let mut bytes: Vec<u8> = Vec::new();
    bytes.push(a);
    assert(bytes@ =~= seq![a]);
    table.push((bytes, kind));
    assert(bound(table@) =~= bound(old(table)@).push((seq![a], kind)));
}

fn bind2(table: &mut Vec<Binding>, a: u8, b: u8, kind: Kind)
    ensures
        bound(final(table)@) == bound(old(table)@).push((seq![a, b], kind)),
{
    let mut bytes: Vec<u8> = Vec::new();
    bytes.push(a);
    bytes.push(b);
    assert(bytes@ =~= seq![a, b]);
    table.push((bytes, kind));
    assert(bound(table@) =~= bound(old(table)@).push((seq![a, b], kind)));
}

fn bind3(table: &mut Vec<Binding>, a: u8, b: u8, c: u8, kind: Kind)
    ensures
        bound(final(table)@) == bound(old(table)@).push((seq![a, b, c], kind)),
{
    let mut bytes: Vec<u8> = Vec::new();
    bytes.push(a);
    bytes.push(b);
    bytes.push(c);
    assert(bytes@ =~= seq![a, b, c]);
    table.push((bytes, kind));
    assert(bound(table@) =~= bound(old(table)@).push((seq![a, b, c], kind)));
}

/// The key bindings.
pub fn bindings() -> (table: Vec<Binding>)
    ensures
        bound(table@) == key_bindings(),
{
    let mut t: Vec<Binding> = Vec::new();
    assert(bound(t@) =~= Seq::empty());
    bind1(&mut t, 0x0d, Kind::Enter);  // Enter
    bind1(&mut t, 0x7f, Kind::Delete);  // BackSpace
    bind3(&mut t, 0x1b, 0x5b, 0x41, Kind::PreviousHistory);  // Up
    bind3(&mut t, 0x1b, 0x5b, 0x42, Kind::NextHistory);  // Down
    bind3(&mut t, 0x1b, 0x5b, 0x43, Kind::ForwardChar);  // Right
    bind3(&mut t, 0x1b, 0x5b, 0x44, Kind::BackwardChar);  // Left
    bind1(&mut t, 0x09, Kind::Complete);  // Tab
    bind1(&mut t, 0x01, Kind::BeginningOFLine);  // Ctrl-A
    bind1(&mut t, 0x02, Kind::BackwardChar);  // Ctrl-B
    bind1(&mut t, 0x05, Kind::EndOfLine);  // Ctrl-E
    bind1(&mut t, 0x06, Kind::ForwardChar);  // Ctrl-F
    bind1(&mut t, 0x07, Kind::Something);  // Ctrl-G
    bind1(&mut t, 0x0a, Kind::Enter);  // Ctrl-J
    bind1(&mut t, 0x0b, Kind::Something);  // Ctrl-K
    bind1(&mut t, 0x0c, Kind::CtrlL);  // Ctrl-L
    bind1(&mut t, 0x0d, Kind::Enter);  // Ctrl-M
    bind1(&mut t, 0x0e, Kind::NextHistory);  // Ctrl-N
    bind1(&mut t, 0x10, Kind::PreviousHistory);  // Ctrl-P
    bind1(&mut t, 0x12, Kind::Something);  // Ctrl-R
    bind1(&mut t, 0x14, Kind::Something);  // Ctrl-T
    bind1(&mut t, 0x19, Kind::Something);  // Ctrl-Y
    bind1(&mut t, 0x1d, Kind::Something);  // Ctrl-]
    bind2(&mut t, 0x1b, 0x08, Kind::Something);  // Escape, Ctrl-H
    bind2(&mut t, 0x1b, 0x1d, Kind::Something);  // Escape, Ctrl-]
    bind2(&mut t, 0x1b, 0x7f, Kind::Something);  // Escape, Rubout
    bind2(&mut t, 0x1b, 0x62, Kind::Something);  // Escape, b
    bind2(&mut t, 0x1b, 0x64, Kind::Something);  // Escape, d
    bind2(&mut t, 0x1b, 0x66, Kind::Something);  // Escape, f
    bind2(&mut t, 0x1b, 0x74, Kind::Something);  // Escape, t
    bind2(&mut t, 0x1b, 0x79, Kind::Something);  // Escape, y
    bind2(&mut t, 0x1b, 0x23, Kind::Something);  // Escape, #
    bind2(&mut t, 0x1b, 0x3c, Kind::Something);  // Escape, <
    bind2(&mut t, 0x1b, 0x3e, Kind::Something);  // Escape, >
    assert(bound(t@) =~= key_bindings());
    t
}

/// `a` and `b` hold the same bytes.
fn same_bytes(a: &Vec<u8>, b: &[u8]) -> (r: bool)
    ensures
        r == (a@ == b@),
{
    if a.len() != b.len() {
        return false;
    }
    let mut i: usize = 0;
    while i < a.len()
        invariant
            0 <= i <= a.len(),
            a.len() == b.len(),
            forall|j: int| 0 <= j < i ==> a@[j] == b@[j],
        decreases a.len() - i,
    {
        if a[i] != b[i] {
            return false;
        }
        i += 1;
    }
    assert(a@ =~= b@);
    true
}

/// What the caller of the reader does after an input.
#[derive(Debug, PartialEq, Eq)]
pub enum Outcome {
    /// The line is not complete: go on with the next signal or input.
    Pending,
    /// The line was submitted.
    Line(String),
}

/// What the reader answers to an input.
#[derive(Debug)]
pub struct Reply {
    /// What is to be written to the terminal, in one piece.
    pub output: String,
    pub outcome: Outcome,
}

/// Reads lines from what the terminal delivers.
pub struct Reader<C: Completer> {
    context: Context<C>,
    /// Key bindings.
    bindings: Vec<Binding>,
}

impl<C: Completer> View for Reader<C> {
    type V = ContextState;

    closed spec fn view(&self) -> ContextState {
        self.context@
    }
}

/// `s` with nothing waiting to be written.
pub open spec fn flushed(s: ContextState) -> ContextState {
    ContextState { editor: EditorState { out: Seq::empty(), ..s.editor }, ..s }
}

impl<C: Completer> Reader<C> {
    /// The reader holds its key bindings and a context between two events.
    pub closed spec fn wf(&self) -> bool {
        &&& self.context@.wf()
        &&& bound(self.bindings@) == key_bindings()
    }

    /// The completer that the reader asks for candidates.
    pub closed spec fn completer(&self) -> C {
        self.context.completer
    }

    /// A reader that works on `con`.
    pub fn new(con: Context<C>) -> (reader: Self)
        requires
            con@.wf(),
        ensures
            reader.wf(),
            reader@ == con@,
            reader.completer() == con.completer,
    {
        Self { bindings: bindings(), context: con }
    }

    /// The context that the reader works on.
    pub fn context(&self) -> (con: &Context<C>)
        ensures
            con@ == self@,
            con.completer == self.completer(),
    {
        &self.context
    }

    /// The completer, to bring it up to date before an input that asks for
    /// a completion.
    pub fn completer_mut(&mut self) -> (c: &mut C)
        requires
            old(self).wf(),
        ensures
            *c == old(self).completer(),
            final(self).completer() == *final(c),
            final(self).wf(),
            final(self)@ == old(self)@,
    {
        &mut self.context.completer
    }

    /// Begins a line: returns the prompt, and with it whatever was waiting
    /// to be written.
    pub fn prompt(&mut self) -> (output: String)
        requires
            old(self).wf(),
        ensures
            final(self).wf(),
            output@ == old(self)@.editor.out + old(self)@.editor.prompt,
            final(self)@ == flushed(old(self)@),
            final(self).completer() == old(self).completer(),
    {
        self.context.editor.write_prompt();
        self.context.editor.display()
    }

    /// A signal arrived: the line is given up. Returns what is to be
    /// written to the terminal; no line is read, nothing goes into the
    /// history, and the next line begins with an empty text and at the most
    /// recent line of the history.
    pub fn interrupt(&mut self, signal: Signal) -> (output: String)
        requires
            old(self).wf(),
        ensures
            final(self).wf(),
            output@ == old(self)@.interrupt().editor.out,
            final(self)@ == flushed(old(self)@.interrupt()),
            final(self).completer() == old(self).completer(),
    {
        let e = Event::from_event_kind(&Some(Kind::Interrupt));
        let _ = e.handle(&mut self.context, Vec::new());
        self.context.editor.display()
    }

    /// Input arrived: the event that it is bound to is handled, or, where
    /// it is bound to none, it is typed text. Returns what is to be written
    /// to the terminal and whether the line is complete.
    pub fn input(&mut self, ch: Vec<u8>) -> (r: Result<Reply, InputError>)
        requires
            old(self).wf(),
        ensures
            final(self).wf(),
            r is Err <==> lookup(key_bindings(), ch@) is None && !valid_utf8(ch@),
            r is Err ==> final(self)@ == old(self)@,
            !is_completion(lookup(key_bindings(), ch@), old(self)@) ==> final(self).completer()
                == old(self).completer(),
            r matches Ok(reply) ==> {
                let kind = lookup(key_bindings(), ch@);
                &&& exists|after: ContextState|
                    {
                        &&& #[trigger] leads_to(
                            kind,
                            ch@,
                            old(self)@,
                            after,
                            old(self).completer().candidates(old(self)@.editor.word_text()),
                            final(self).completer().width(),
                        )
                        &&& final(self)@ == flushed(after)
                        &&& reply.output@ == after.editor.out
                    }
                &&& match reply.outcome {
                    Outcome::Line(line) => kind == Some(Kind::Enter) && line@ == old(
                        self,
                    )@.editor.buffer,
                    Outcome::Pending => kind != Some(Kind::Enter),
                }
            },
    {
        let res = self.find_bind(ch.as_slice());
        let e = Event::from_event_kind(&res);
        match e.handle(&mut self.context, ch) {
            Ok(line) => {
                let ghost after = self.context@;
                let output = self.context.editor.display();
                assert(self@ == flushed(after));
                assert(leads_to(
                    res,
                    ch@,
                    old(self)@,
                    after,
                    old(self).completer().candidates(old(self)@.editor.word_text()),
                    self.completer().width(),
                ));
                let outcome = match line {
                    Some(l) => Outcome::Line(l),
                    None => Outcome::Pending,
                };
                Ok(Reply { output: output, outcome: outcome })
            },
            Err(e) => Err(e),
        }
    }

    /// The kind of event that the input `ch` is bound to.
    pub fn find_bind(&self, ch: &[u8]) -> (kind: Option<Kind>)
        requires
            self.wf(),
        ensures
            kind == lookup(key_bindings(), ch@),
    {
        let ghost table = bound(self.bindings@);
        let mut i: usize = 0;
        while i < self.bindings.len()
            invariant
                0 <= i <= self.bindings.len(),
                table == bound(self.bindings@),
                table == key_bindings(),
                lookup(table, ch@) == lookup_from(table, ch@, i as int),
            decreases self.bindings.len() - i,
        {
            assert(table[i as int] == (self.bindings@[i as int].0@, self.bindings@[i as int].1));
            if same_bytes(&self.bindings[i].0, ch) {
                return Some(self.bindings[i].1);
            }
            i += 1;
        }
        None
    }
}

} // verus!
