//! The signals that interrupt the editing of a line.

use vstd::prelude::*;

verus! {

/// A signal that the line editor listens for.
#[derive(Debug, Clone, Copy, PartialEq, Eq)]
pub enum Signal {
    Interrupt,
    Suspend,
    Continue,
    Quit,
}

/// The number that stands in the cell while no signal has arrived.
pub const NO_SIGNAL: usize = usize::MAX;

/// The signal that the editor listens for and that the number `n` names on
/// the platform that the library is built for; none where `n` names another
/// signal or no signal. The table of the numbers is the platform's.
pub uninterp spec fn listened(n: i32) -> Option<Signal>;

/// `nix::sys::signal::Signal::from_c_int` gives the signal that the number
/// `n` names; it accepts the numbers from 1 to 31 and no others. Of the
/// signals it names, the four that the editor listens for are told apart
/// here. The result is named `listened(n)`; which number names which signal
/// is not stated.
#[verifier::external_body]
fn listened_signal(n: i32) -> (r: Option<Signal>)
    ensures
        r == listened(n),
        r is Some ==> 0 < n < 32,
{
    match nix::sys::signal::Signal::from_c_int(n) {
        Ok(nix::sys::signal::Signal::SIGINT) => Some(Signal::Interrupt),
        Ok(nix::sys::signal::Signal::SIGTSTP) => Some(Signal::Suspend),
        Ok(nix::sys::signal::Signal::SIGCONT) => Some(Signal::Continue),
        Ok(nix::sys::signal::Signal::SIGQUIT) => Some(Signal::Quit),
        _ => None,
    }
}

/// What taking the number `n` out of the cell gives: nothing for the empty
/// cell, else the signal that the low 32 bits of `n` name.
pub open spec fn signal_of(n: usize) -> Option<Signal> {
    if n == NO_SIGNAL {
        None
    } else {
        listened(n as i32)
    }
}

/// The signal that the number `n` of the cell stands for, if it is one that
/// the editor listens for. As a signal number only the low 32 bits of `n` count.
pub fn conv_signal(n: usize) -> (r: Option<Signal>)
    ensures
        r == signal_of(n),
        r is Some ==> 0 < (n as i32) < 32,
{
    if n == NO_SIGNAL {
        None
    } else {
        listened_signal(#[verifier::truncate] (n as i32))
    }
}

/// The cell that holds the number of the last signal that arrived.
#[derive(Debug)]
pub struct LastSignal {
    raw: usize,
}

impl View for LastSignal {
    type V = usize;

    closed spec fn view(&self) -> usize {
        self.raw
    }
}

impl LastSignal {
    /// A cell into which no signal has been stored. It holds 0, which is no
    /// signal's number.
    pub fn new() -> (cell: Self)
        ensures
            cell@ == 0,
    {
        LastSignal { raw: 0 }
    }

    /// Stores the number of a signal that arrived.
    pub fn set_raw_signal(&mut self, sig: usize)
        ensures
            final(self)@ == sig,
    {
        self.raw = sig;
    }

    /// Takes the last signal out of the cell, which is empty afterwards.
    pub fn take(&mut self) -> (r: Option<Signal>)
        ensures
            final(self)@ == NO_SIGNAL,
            r == signal_of(old(self)@),
            r is Some ==> 0 < (old(self)@ as i32) < 32,
    {
        self.take_last_signal()
    }

    fn take_last_signal(&mut self) -> (r: Option<Signal>)
        ensures
            final(self)@ == NO_SIGNAL,
            r == signal_of(old(self)@),
            r is Some ==> 0 < (old(self)@ as i32) < 32,
    {
        let n = self.raw;
        self.raw = NO_SIGNAL;
        conv_signal(n)
    }
}

} // verus!
