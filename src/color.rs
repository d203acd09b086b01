//! Colours built from 256-colour indices, true colours or the eight system
//! colours, for the foreground, the background or both.

use vstd::prelude::*;
use crate::ansi::{decimal, push_decimal, rgb_code, rgb_params, sgr, xterm_code, xterm_params};
use crate::style::Style;

verus! {

/// Where a colour applies.
#[derive(Debug, PartialEq, Eq, Structural, Clone, Copy)]
pub enum Context {
    Foreground,
    Background,
    /// Foreground and background alike.
    Solid,
}

/// The eight colours every terminal names.
#[derive(Debug, PartialEq, Eq, Structural, Clone, Copy)]
pub enum SystemColor {
    Black,
    Red,
    Green,
    Yellow,
    Blue,
    Magenta,
    Cyan,
    White,
}

/// The index of a system colour, from black (0) to white (7).
pub open spec fn system_index(c: SystemColor) -> u8 {
    match c {
        SystemColor::Black => 0,
        SystemColor::Red => 1,
        SystemColor::Green => 2,
        SystemColor::Yellow => 3,
        SystemColor::Blue => 4,
        SystemColor::Magenta => 5,
        SystemColor::Cyan => 6,
        SystemColor::White => 7,
    }
}

impl SystemColor {
    /// The colour's index, from black (0) to white (7).
    pub fn color(&self) -> (r: u8)
        ensures
            r == system_index(*self),
    {
        match self {
            SystemColor::Black => 0,
            SystemColor::Red => 1,
            SystemColor::Green => 2,
            SystemColor::Yellow => 3,
            SystemColor::Blue => 4,
            SystemColor::Magenta => 5,
            SystemColor::Cyan => 6,
            SystemColor::White => 7,
        }
    }
}

impl Default for Context {
    fn default() -> (r: Context)
        ensures
            r == Context::Foreground,
    {
        Context::Foreground
    }
}

impl Default for SystemColor {
    fn default() -> (r: SystemColor)
        ensures
            r == SystemColor::White,
    {
        SystemColor::White
    }
}

/// What the contracts see of a [`Color`]: the code of each side, if set.
pub struct ColorView {
    pub foreground: Option<Seq<char>>,
    pub background: Option<Seq<char>>,
}

/// An optional foreground and an optional background attribute code.
pub struct Color {
    foreground: Option<String>,
    background: Option<String>,
}

/// An optional code as the contracts see it.
pub open spec fn code_view(o: Option<String>) -> Option<Seq<char>> {
    match o {
        Some(s) => Some(s@),
        None => None,
    }
}

impl View for Color {
    type V = ColorView;

    closed spec fn view(&self) -> ColorView {
        ColorView { foreground: code_view(self.foreground), background: code_view(self.background) }
    }
}

/// The codes a colour made for `context` holds: `fg` on the foreground
/// side, `bg` on the background side.
pub open spec fn placed(fg: Seq<char>, bg: Seq<char>, context: Context) -> ColorView {
    match context {
        Context::Foreground => ColorView { foreground: Some(fg), background: None },
        Context::Background => ColorView { foreground: None, background: Some(bg) },
        Context::Solid => ColorView { foreground: Some(fg), background: Some(bg) },
    }
}

/// The codes that are set, joined by `;`.
pub open spec fn joined(c: ColorView) -> Seq<char> {
    match c.foreground {
        Some(f) => match c.background {
            Some(b) => f + ";"@ + b,
            None => f,
        },
        None => match c.background {
            Some(b) => b,
            None => Seq::empty(),
        },
    }
}

/// The escape sequence of a colour: one SGR sequence with the codes that
/// are set, or nothing when none is.
pub open spec fn color_escape(c: ColorView) -> Seq<char> {
    if c.foreground is None && c.background is None {
        Seq::empty()
    } else {
        sgr(joined(c))
    }
}

fn place(fg: String, bg: String, context: Context) -> (r: Color)
    ensures
        r@ == placed(fg@, bg@, context),
{
    match context {
        Context::Foreground => Color::fg(fg),
        Context::Background => Color::bg(bg),
        Context::Solid => Color::new(fg, bg),
    }
}

impl Color {
    /// A colour with only a foreground code.
    pub fn fg(foreground: String) -> (r: Color)
        ensures
            r@ == (ColorView { foreground: Some(foreground@), background: None }),
    {
        Color { foreground: Some(foreground), background: None }
    }

    /// A colour with only a background code.
    pub fn bg(background: String) -> (r: Color)
        ensures
            r@ == (ColorView { foreground: None, background: Some(background@) }),
    {
        Color { foreground: None, background: Some(background) }
    }

    /// A colour with both codes.
    pub fn new(foreground: String, background: String) -> (r: Color)
        ensures
            r@ == (ColorView { foreground: Some(foreground@), background: Some(background@) }),
    {
        Color { foreground: Some(foreground), background: Some(background) }
    }

    /// A 256-colour index: `38;5;n` in the foreground, `48;5;n` in the
    /// background.
    pub fn xterm(code: u8, context: Context) -> (r: Color)
        ensures
            r@ == placed(xterm_code(code, false), xterm_code(code, true), context),
    {
        place(xterm_params(code, false), xterm_params(code, true), context)
    }

    /// A true colour: `38;2;r;g;b` in the foreground, `48;2;r;g;b` in the
    /// background.
    pub fn rgb(r: u8, g: u8, b: u8, context: Context) -> (c: Color)
        ensures
            c@ == placed(rgb_code(r, g, b, false), rgb_code(r, g, b, true), context),
    {
        place(rgb_params(r, g, b, false), rgb_params(r, g, b, true), context)
    }

    /// A system colour: `30 + i` in the foreground, `40 + i` in the
    /// background, with `i` its index.
    pub fn system(system: SystemColor, context: Context) -> (r: Color)
        ensures
            r@ == placed(
                decimal((30 + system_index(system)) as nat),
                decimal((40 + system_index(system)) as nat),
                context,
            ),
    {
        let i = system.color();
        let mut fg = String::new();
        push_decimal(&mut fg, 30 + i as u32);
        let mut bg = String::new();
        push_decimal(&mut bg, 40 + i as u32);
        place(fg, bg, context)
    }

    /// The terminal's own colours: `39` and `49`.
    pub fn default_colors() -> (r: Color)
        ensures
            r@ == (ColorView { foreground: Some("39"@), background: Some("49"@) }),
    {
        Color::new(String::from_str("39"), String::from_str("49"))
    }

    /// The escape sequence that sets this colour.
    pub fn escape(&self) -> (r: String)
        ensures
            r@ == color_escape(self@),
    {
        let mut out = String::from_str("\x1b[");
        match &self.foreground {
            Some(f) => {
                out.append(f.as_str());
                match &self.background {
                    Some(b) => {
                        out.append(";");
                        out.append(b.as_str());
                    },
                    None => {},
                }
            },
            None => match &self.background {
                Some(b) => {
                    out.append(b.as_str());
                },
                None => {
                    return String::new();
                },
            },
        }
        out.append("m");
        out
    }

    /// The same codes as a [`Style`]; a side that is not set gets an empty
    /// code, which names no attribute.
    pub fn to_style(&self) -> (r: Style)
        ensures
            r@.foreground == match self@.foreground {
                Some(f) => f,
                None => Seq::empty(),
            },
            r@.background == match self@.background {
                Some(b) => b,
                None => Seq::empty(),
            },
    {
        let fg = match &self.foreground {
            Some(f) => f.clone(),
            None => String::new(),
        };
        let bg = match &self.background {
            Some(b) => b.clone(),
            None => String::new(),
        };
        Style { foreground: fg, background: bg }
    }
}

} // verus!
