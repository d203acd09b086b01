//! Escape sequences for the cursor, the screen and colours, built as text;
//! writing them to the terminal is left to the caller.

use vstd::prelude::*;
use crate::chars::push_char;

verus! {

/// Shows the cursor.
pub const SHOW: &'static str = "\x1b[?25h";

/// Hides the cursor.
pub const HIDE: &'static str = "\x1b[?25l";

/// Moves the cursor home, resets the attributes and clears the screen.
pub const CLEAR: &'static str = "\x1b[H\x1b[0m\x1b[2J";

/// Moves the cursor home.
pub const HOME: &'static str = "\x1b[H";

/// The character of decimal digit `d`.
pub open spec fn digit(d: nat) -> char {
    ((d + 48) as u8) as char
}

/// `n` written in decimal, without leading zeros.
pub open spec fn decimal(n: nat) -> Seq<char>
    decreases n,
{
    if n < 10 {
        seq![digit(n)]
    } else {
        decimal(n / 10).push(digit(n % 10))
    }
}

/// Appends `n` in decimal to `out`.
pub fn push_decimal(out: &mut String, n: u32)
    ensures
        final(out)@ == old(out)@ + decimal(n as nat),
    decreases n,
{
    if n >= 10 {
        push_decimal(out, n / 10);
    }
    let d = (n % 10) as u8;
    push_char(out, (d + 48) as char);
    assert(final(out)@ =~= old(out)@ + decimal(n as nat));
}

/// The cursor-position sequence for column `x`, row `y` (both counted
/// from one, as the terminal counts them).
pub fn point(x: u32, y: u32) -> (r: String)
    ensures
        r@ == "\x1b["@ + decimal(y as nat) + ";"@ + decimal(x as nat) + "H"@,
{
    let mut out = String::from_str("\x1b[");
    push_decimal(&mut out, y);
    out.append(";");
    push_decimal(&mut out, x);
    out.append("H");
    out
}

/// The SGR sequence with the given parameters.
pub open spec fn sgr(params: Seq<char>) -> Seq<char> {
    "\x1b["@ + params + "m"@
}

/// The parameters of a 256-colour code: `38;5;n` in the foreground,
/// `48;5;n` in the background.
pub open spec fn xterm_code(code: u8, background: bool) -> Seq<char> {
    (if background {
        "48;5;"@
    } else {
        "38;5;"@
    }) + decimal(code as nat)
}

/// The parameters of a true-colour code: `38;2;r;g;b` in the foreground,
/// `48;2;r;g;b` in the background.
pub open spec fn rgb_code(r: u8, g: u8, b: u8, background: bool) -> Seq<char> {
    (if background {
        "48;2;"@
    } else {
        "38;2;"@
    }) + decimal(r as nat) + ";"@ + decimal(g as nat) + ";"@ + decimal(b as nat)
}

/// The parameters of a 256-colour code.
pub fn xterm_params(code: u8, background: bool) -> (r: String)
    ensures
        r@ == xterm_code(code, background),
{
    let mut out = if background {
        String::from_str("48;5;")
    } else {
        String::from_str("38;5;")
    };
    push_decimal(&mut out, code as u32);
    out
}

/// The parameters of a true-colour code.
pub fn rgb_params(r: u8, g: u8, b: u8, background: bool) -> (s: String)
    ensures
        s@ == rgb_code(r, g, b, background),
{
    let mut out = if background {
        String::from_str("48;2;")
    } else {
        String::from_str("38;2;")
    };
    push_decimal(&mut out, r as u32);
    out.append(";");
    push_decimal(&mut out, g as u32);
    out.append(";");
    push_decimal(&mut out, b as u32);
    out
}

/// The sequence that sets 256-colour `code` in the foreground.
pub fn foreground_xterm(code: u8) -> (r: String)
    ensures
        r@ == sgr(xterm_code(code, false)),
{
    let mut out = String::from_str("\x1b[");
    let p = xterm_params(code, false);
    out.append(p.as_str());
    out.append("m");
    out
}

/// The sequence that sets a true colour in the foreground.
pub fn foreground_rgb(r: u8, g: u8, b: u8) -> (s: String)
    ensures
        s@ == sgr(rgb_code(r, g, b, false)),
{
    let mut out = String::from_str("\x1b[");
    let p = rgb_params(r, g, b, false);
    out.append(p.as_str());
    out.append("m");
    out
}

/// The sequence that resets intensity, underline and the foreground.
pub fn foreground_reset() -> (r: String)
    ensures
        r@ == "\x1b[22;24;39m"@,
{
    String::from_str("\x1b[22;24;39m")
}

/// The sequence that sets 256-colour `code` in the background.
pub fn background_xterm(code: u8) -> (r: String)
    ensures
        r@ == sgr(xterm_code(code, true)),
{
    let mut out = String::from_str("\x1b[");
    let p = xterm_params(code, true);
    out.append(p.as_str());
    out.append("m");
    out
}

/// The sequence that sets a true colour in the background.
pub fn background_rgb(r: u8, g: u8, b: u8) -> (s: String)
    ensures
        s@ == sgr(rgb_code(r, g, b, true)),
{
    let mut out = String::from_str("\x1b[");
    let p = rgb_params(r, g, b, true);
    out.append(p.as_str());
    out.append("m");
    out
}

} // verus!
