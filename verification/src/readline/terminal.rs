//! Cursor control sequences for ANSI/VT terminals.
//!
//! Nothing here touches the terminal: every function returns the characters
//! that, once written, make the terminal do what the function is named after.

use vstd::prelude::*;

verus! {

/// Size of the terminal window, in character cells and in pixels.
#[derive(Debug, Clone, Copy, PartialEq, Eq)]
pub struct Winsize {
    pub ws_row: u16,
    pub ws_col: u16,
    pub ws_xpixel: u16,
    pub ws_ypixel: u16,
}

/// The part of a terminal's line discipline that the line editor sets.
#[derive(Debug, Clone, Copy, PartialEq, Eq)]
pub struct LineDiscipline {
    /// Input is handed over line by line.
    pub canonical: bool,
    /// What is typed is echoed.
    pub echo: bool,
    /// A line feed that comes in is turned into a carriage return.
    pub nl_to_cr: bool,
    /// A carriage return that comes in is turned into a line feed.
    pub cr_to_nl: bool,
    /// The least number of bytes that a read waits for.
    pub min_read: u8,
    /// How long a read waits, in tenths of a second.
    pub read_timeout: u8,
}

/// Raw mode: input comes byte by byte, unechoed and unchanged, and a
/// read returns at once with what there is, be it nothing.
pub fn raw_mode(current: LineDiscipline) -> (raw: LineDiscipline)
    ensures
        raw == (LineDiscipline {
            canonical: false,
            echo: false,
            nl_to_cr: false,
            cr_to_nl: false,
            min_read: 0,
            read_timeout: 0,
        }),
{
    let mut tio = current;
    tio.nl_to_cr = false;
    tio.cr_to_nl = false;
    tio.canonical = false;
    tio.echo = false;
    tio.min_read = 0;
    tio.read_timeout = 0;
    tio
}

/// The escape character that opens every control sequence.
pub const ESC: char = '\x1b';

/// The character that writes the digit `d`.
pub open spec fn digit(d: int) -> char
    recommends
        0 <= d < 10,
{
    seq!['0', '1', '2', '3', '4', '5', '6', '7', '8', '9'][d]
}

/// `n` written in base ten, without leading zeros.
pub open spec fn decimal(n: nat) -> Seq<char>
    decreases n,
{
    if n < 10 {
        seq![digit(n as int)]
    } else {
        decimal(n / 10).push(digit((n % 10) as int))
    }
}

/// The control sequence with the numeric parameter `n` and the final character `cmd`.
pub open spec fn control_sequence(n: nat, cmd: char) -> Seq<char> {
    seq![ESC, '['] + decimal(n) + seq![cmd]
}

fn digit_char(d: usize) -> (c: char)
    requires
        d < 10,
    ensures
        c == digit(d as int),
{
    match d {
        0 => '0',
        1 => '1',
        2 => '2',
        3 => '3',
        4 => '4',
        5 => '5',
        6 => '6',
        7 => '7',
        8 => '8',
        _ => '9',
    }
}

/// Appends the decimal numeral of `n` to `s`.
pub fn push_decimal(s: &mut String, n: usize)
    ensures
        final(s)@ == old(s)@ + decimal(n as nat),
    decreases n,
{
    if n >= 10 {
        push_decimal(s, n / 10);
    }
    s.push(digit_char(n % 10));
}

fn sequence(n: usize, cmd: char) -> (s: String)
    ensures
        s@ == control_sequence(n as nat, cmd),
{
    let mut s = String::new();
    s.push(ESC);
    s.push('[');
    push_decimal(&mut s, n);
    s.push(cmd);
    s
}

/// Moves the cursor to column `n` of the current line (columns count from 1).
pub fn move_to(n: usize) -> (s: String)
    ensures
        s@ == control_sequence(n as nat, 'G'),
{
    sequence(n, 'G')
}

/// Moves the cursor `n` lines up.
pub fn move_up(n: usize) -> (s: String)
    ensures
        s@ == control_sequence(n as nat, 'A'),
{
    sequence(n, 'A')
}

/// Moves the cursor `n` lines down.
pub fn move_down(n: usize) -> (s: String)
    ensures
        s@ == control_sequence(n as nat, 'B'),
{
    sequence(n, 'B')
}

/// Moves the cursor `n` columns to the right.
pub fn move_right(n: usize) -> (s: String)
    ensures
        s@ == control_sequence(n as nat, 'C'),
{
    sequence(n, 'C')
}

/// Moves the cursor `n` columns to the left.
pub fn move_left(n: usize) -> (s: String)
    ensures
        s@ == control_sequence(n as nat, 'D'),
{
    sequence(n, 'D')
}

/// Moves the cursor to the first column of the `n`-th line below.
pub fn move_under_line_first(n: usize) -> (s: String)
    ensures
        s@ == control_sequence(n as nat, 'E'),
{
    sequence(n, 'E')
}

/// Clears everything from the cursor to the end of the screen.
pub fn clear_to_screen_end() -> (s: String)
    ensures
        s@ == control_sequence(0, 'J'),
{
    sequence(0, 'J')
}

} // verus!
