//! Background colours for the completion overlay.

use vstd::prelude::*;

verus! {

/// The sequence that switches every attribute off again.
pub open spec fn reset_code() -> Seq<char> {
    seq!['\x1b', '[', 'm']
}

/// The sequence that selects a light blue background.
pub open spec fn light_blue_code() -> Seq<char> {
    seq!['\x1b', '[', '4', '4', 'm']
}

/// The sequence that selects a dark blue background.
pub open spec fn dark_blue_code() -> Seq<char> {
    seq!['\x1b', '[', '4', '8', ';', '5', ';', '2', '4', 'm']
}

/// The sequence that selects a gray background.
pub open spec fn gray_code() -> Seq<char> {
    seq!['\x1b', '[', '4', '8', ';', '5', ';', '2', '4', '0', 'm']
}

/// The sequence that swaps foreground and background.
pub open spec fn white_code() -> Seq<char> {
    seq!['\x1b', '[', '7', 'm']
}

/// `text` between the colour selection `code` and the reset.
pub open spec fn painted(code: Seq<char>, text: Seq<char>) -> Seq<char> {
    code + text + reset_code()
}

fn paint(code: &str, s: &str) -> (r: String)
    ensures
        r@ == code@ + s@ + reset_code(),
{
    let mut r = String::from_str(code);
    r.append(s);
    r.push('\x1b');
    r.push('[');
    r.push('m');
    assert(r@ =~= code@ + s@ + reset_code());
    r
}

/// `s` on a light blue background.
pub fn light_blue(s: &str) -> (r: String)
    ensures
        r@ == painted(light_blue_code(), s@),
{
    proof {
        reveal_strlit("\x1B[44m");
    }
    assert("\x1B[44m"@ =~= light_blue_code());
    paint("\x1B[44m", s)
}

/// `s` on a dark blue background.
pub fn dark_blue(s: &str) -> (r: String)
    ensures
        r@ == painted(dark_blue_code(), s@),
{
    proof {
        reveal_strlit("\x1B[48;5;24m");
    }
    assert("\x1B[48;5;24m"@ =~= dark_blue_code());
    paint("\x1B[48;5;24m", s)
}

/// `s` on a gray background.
pub fn gray(s: &str) -> (r: String)
    ensures
        r@ == painted(gray_code(), s@),
{
    proof {
        reveal_strlit("\x1B[48;5;240m");
    }
    assert("\x1B[48;5;240m"@ =~= gray_code());
    paint("\x1B[48;5;240m", s)
}

/// `s` with foreground and background swapped.
pub fn white(s: &str) -> (r: String)
    ensures
        r@ == painted(white_code(), s@),
{
    proof {
        reveal_strlit("\x1B[7m");
    }
    assert("\x1B[7m"@ =~= white_code());
    paint("\x1B[7m", s)
}

} // verus!
