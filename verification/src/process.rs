//! The processes that run the stages of a pipeline.
//!
//! Forking, waiting and running are the caller's: this module decides what
//! runs a command and keeps what a fork returned.

use vstd::prelude::*;
use crate::text::chars_of;

verus! {

/// What runs a command.
#[derive(Debug, Clone, Copy, PartialEq, Eq)]
pub enum Builtin {
    Cd,
    Ls,
    Pwd,
    Clear,
    Bye,
    Tanakh,
    Syar,
    /// No builtin: the program of that name is executed.
    Other,
}

/// What runs the program `program`. Nothing runs a command without a program.
pub open spec fn builtin_for(program: Seq<char>) -> Option<Builtin> {
    if program.len() == 0 {
        None
    } else if program == "cd"@ {
        Some(Builtin::Cd)
    } else if program == "ls"@ {
        Some(Builtin::Ls)
    } else if program == "pwd"@ {
        Some(Builtin::Pwd)
    } else if program == "clear"@ {
        Some(Builtin::Clear)
    } else if program == "bye"@ {
        Some(Builtin::Bye)
    } else if program == "tanakh"@ {
        Some(Builtin::Tanakh)
    } else if program == "syar"@ {
        Some(Builtin::Syar)
    } else {
        Some(Builtin::Other)
    }
}

/// `a` and `b` are the same text.
fn same_text(a: &Vec<char>, b: &str) -> (r: bool)
    ensures
        r == (a@ == b@),
{
    let other = chars_of(b);
    if a.len() != other.len() {
        return false;
    }
    let mut i: usize = 0;
    while i < a.len()
        invariant
            0 <= i <= a.len(),
            a.len() == other.len(),
            other@ == b@,
            forall|j: int| 0 <= j < i ==> a@[j] == other@[j],
        decreases a.len() - i,
    {
        if a[i] != other[i] {
            assert(a@[i as int] != b@[i as int]);
            return false;
        }
        i += 1;
    }
    assert(a@ =~= b@);
    true
}

/// What runs the program `program`.
pub fn dispatch(program: &str) -> (r: Option<Builtin>)
    ensures
        r == builtin_for(program@),
{
    let name = chars_of(program);
    if name.len() == 0 {
        None
    } else if same_text(&name, "cd") {
        Some(Builtin::Cd)
    } else if same_text(&name, "ls") {
        Some(Builtin::Ls)
    } else if same_text(&name, "pwd") {
        Some(Builtin::Pwd)
    } else if same_text(&name, "clear") {
        Some(Builtin::Clear)
    } else if same_text(&name, "bye") {
        Some(Builtin::Bye)
    } else if same_text(&name, "tanakh") {
        Some(Builtin::Tanakh)
    } else if same_text(&name, "syar") {
        Some(Builtin::Syar)
    } else {
        Some(Builtin::Other)
    }
}

/// The two sides of a fork.
#[derive(Debug, Clone, Copy, PartialEq, Eq)]
pub enum ForkResult {
    /// The side of the shell, which learns the child's process id.
    Parent { child: i32 },
    /// The side of the new process.
    Child,
}

/// One stage of a pipeline after the fork, as either side sees it.
#[derive(Debug, Clone, Copy)]
pub struct Process {
    /// The process id of the stage.
    pub pid: i32,
    /// What runs the stage's command.
    pub f: Builtin,
    /// Which side of the fork this is.
    pub fork_result: ForkResult,
}

impl Process {
    /// The stage that `f_` runs, from what the fork returned and the process
    /// id of the process that asks. In the child that id is the stage's own.
    pub fn new(f_: Builtin, result: ForkResult, own_pid: i32) -> (p: Self)
        ensures
            p.f == f_,
            p.fork_result == result,
            p.pid == match result {
                ForkResult::Parent { child } => child,
                ForkResult::Child => own_pid,
            },
    {
        let pid_ = match result {
            ForkResult::Parent { child } => child,
            ForkResult::Child => own_pid,
        };
        Self { pid: pid_, f: f_, fork_result: result }
    }

    /// This is the side of the new process, which runs the command and ends;
    /// the other side waits for it.
    pub fn in_child(&self) -> (b: bool)
        ensures
            b == (self.fork_result is Child),
    {
        match self.fork_result {
            ForkResult::Child => true,
            ForkResult::Parent { .. } => false,
        }
    }
}

} // verus!
