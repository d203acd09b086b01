//! One grid cell: a printable character and the style it is drawn in.

use vstd::prelude::*;
use crate::chars::push_char;
use crate::style::{Style, StyleView, style_change, default_style};

verus! {

/// The character drawn in a cell that holds nothing.
pub const FILL: char = ' ';

/// What the contracts see of a [`Pixel`].
pub struct PixelView {
    pub symbol: char,
    pub style: StyleView,
}

/// A cell of the grid.
#[derive(Debug, Clone)]
pub struct Pixel {
    pub color: Style,
    pub symbol: char,
}

impl View for Pixel {
    type V = PixelView;

    open spec fn view(&self) -> PixelView {
        PixelView { symbol: self.symbol, style: self.color@ }
    }
}

/// The cells of a vector as the contracts see them.
pub open spec fn pixels_view(v: Seq<Pixel>) -> Seq<PixelView> {
    v.map_values(|p: Pixel| p@)
}

/// The content of an empty cell: a space in the terminal's own colours.
pub open spec fn fill_pixel() -> PixelView {
    PixelView { symbol: FILL, style: default_style() }
}

/// The text of cell `p` when the terminal was left in style `prev`: the
/// switch to its style, then its character.
pub open spec fn pixel_text(p: PixelView, prev: StyleView) -> Seq<char> {
    style_change(p.style, prev).push(p.symbol)
}

impl Pixel {
    /// The character `symbol` in style `color`.
    pub fn new(color: Style, symbol: char) -> (r: Pixel)
        ensures
            r.color == color,
            r.symbol == symbol,
    {
        Pixel { color, symbol }
    }

    /// A character in the terminal's own colours.
    pub fn plain(symbol: char) -> (r: Pixel)
        ensures
            r@ == (PixelView { symbol, style: default_style() }),
    {
        Pixel { color: Style::default_colors(), symbol }
    }

    /// The content of an empty cell.
    pub fn fill() -> (r: Pixel)
        ensures
            r@ == fill_pixel(),
    {
        Pixel::plain(FILL)
    }

    /// A copy with the same character and codes.
    pub fn duplicate(&self) -> (r: Pixel)
        ensures
            r == *self,
    {
        Pixel { color: self.color.duplicate(), symbol: self.symbol }
    }

    /// Whether the two cells hold the same character and codes.
    pub fn same(&self, other: &Pixel) -> (r: bool)
        ensures
            r == (self@ == other@),
    {
        self.symbol == other.symbol && self.color.same(&other.color)
    }

    /// The cell as text, led by the escape fragment that switches from
    /// `prev_color` to its style.
    pub fn format(&self, prev_color: &Style) -> (r: String)
        ensures
            r@ == pixel_text(self@, prev_color@),
    {
        let mut out = self.color.format(prev_color);
        push_char(&mut out, self.symbol);
        out
    }

    /// One cell for each character of `text`, all in `color`.
    pub fn colored(color: &Style, text: &str) -> (r: Vec<Pixel>)
        ensures
            r@.len() == text@.len(),
            forall|i: int|
                0 <= i < r@.len() ==> (#[trigger] r@[i])@ == (PixelView {
                    symbol: text@[i],
                    style: color@,
                }),
    {
        let n = text.unicode_len();
        let mut out: Vec<Pixel> = Vec::new();
        let mut i: usize = 0;
        while i < n
            invariant
                n == text@.len(),
                i <= n,
                out@.len() == i,
                forall|k: int|
                    0 <= k < i ==> (#[trigger] out@[k])@ == (PixelView {
                        symbol: text@[k],
                        style: color@,
                    }),
            decreases n - i,
        {
            out.push(Pixel { color: color.duplicate(), symbol: text.get_char(i) });
            i = i + 1;
        }
        out
    }
}

impl Default for Pixel {
    /// The content of an empty cell.
    fn default() -> (r: Pixel)
        ensures
            r@ == fill_pixel(),
    {
        Pixel::fill()
    }
}

impl PartialEq for Pixel {
    fn eq(&self, other: &Pixel) -> (r: bool) {
        self.same(other)
    }
}

impl vstd::std_specs::cmp::PartialEqSpecImpl for Pixel {
    open spec fn obeys_eq_spec() -> bool {
        true
    }

    open spec fn eq_spec(&self, other: &Pixel) -> bool {
        self@ == other@
    }
}

} // verus!
