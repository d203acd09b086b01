//! A fixed-size grid of owned cells, stored row by row, and its
//! serialisation to terminal text.

use vstd::prelude::*;
use crate::chars::push_char;
use crate::pixel::{Pixel, PixelView, fill_pixel, pixel_text, pixels_view};
use crate::text::same_pixels;
use crate::style::{Style, StyleView, default_style, style_change};

verus! {

/// Why a cell could not be written.
#[derive(Debug, PartialEq, Eq, Structural, Clone, Copy)]
pub enum GridError {
    /// The coordinate lies outside the grid.
    OutOfBounds,
}

/// The style that the terminal was left in before cell `j` is drawn: that
/// of the cell before it, or the terminal's own colours at the start.
pub open spec fn style_before(cells: Seq<PixelView>, j: int) -> StyleView {
    if j <= 0 {
        default_style()
    } else {
        cells[j - 1].style
    }
}

/// Whether a line break follows cell `j` of a grid `width` cells wide:
/// after each row but the last.
pub open spec fn breaks_after(cells: Seq<PixelView>, width: nat, j: int) -> bool {
    (j + 1) % (width as int) == 0 && j + 1 < cells.len()
}

/// The text of the first `k` cells: each cell led by the escape fragment
/// that switches from the previous cell's style to its own.
pub open spec fn rendered(cells: Seq<PixelView>, width: nat, k: nat) -> Seq<char>
    decreases k,
{
    if k == 0 {
        Seq::empty()
    } else {
        let j = k - 1;
        let line = rendered(cells, width, j as nat) + pixel_text(cells[j], style_before(cells, j));
        if breaks_after(cells, width, j) {
            line.push('\n')
        } else {
            line
        }
    }
}

/// The characters of the first `k` cells with the line breaks, and no
/// escape fragments.
pub open spec fn symbols(cells: Seq<PixelView>, width: nat, k: nat) -> Seq<char>
    decreases k,
{
    if k == 0 {
        Seq::empty()
    } else {
        let j = k - 1;
        let line = symbols(cells, width, j as nat).push(cells[j].symbol);
        if breaks_after(cells, width, j) {
            line.push('\n')
        } else {
            line
        }
    }
}

/// A grid whose cells all share style `s` is drawn with a single escape
/// fragment, the switch from the terminal's own colours to `s` before the
/// first cell; every later cell gets none, so the rest is its characters
/// and line breaks alone.
pub proof fn lemma_uniform_render(cells: Seq<PixelView>, width: nat, s: StyleView)
    requires
        cells.len() > 0,
        forall|k: int| 0 <= k < cells.len() ==> (#[trigger] cells[k]).style == s,
    ensures
        forall|j: int|
            0 < j < cells.len() ==> style_change(#[trigger] cells[j].style, style_before(cells, j))
                == Seq::<char>::empty(),
        rendered(cells, width, cells.len()) == style_change(s, default_style()) + symbols(
            cells,
            width,
            cells.len(),
        ),
{
    assert forall|j: int| 0 < j < cells.len() implies style_change(
        #[trigger] cells[j].style,
        style_before(cells, j),
    ) == Seq::<char>::empty() by {
        assert(cells[j - 1].style == s);
        assert(style_change(s, s) =~= Seq::<char>::empty());
    }
    lemma_uniform_prefix(cells, width, s, cells.len());
}

proof fn lemma_uniform_prefix(cells: Seq<PixelView>, width: nat, s: StyleView, k: nat)
    requires
        0 < k <= cells.len(),
        forall|m: int| 0 <= m < cells.len() ==> (#[trigger] cells[m]).style == s,
    ensures
        rendered(cells, width, k) == style_change(s, default_style()) + symbols(cells, width, k),
    decreases k,
{
    let j = k - 1;
    if k == 1 {
        assert(rendered(cells, width, 0) =~= Seq::<char>::empty());
        assert(symbols(cells, width, 0) =~= Seq::<char>::empty());
        assert(rendered(cells, width, k) =~= style_change(s, default_style()) + symbols(
            cells,
            width,
            k,
        ));
    } else {
        lemma_uniform_prefix(cells, width, s, (k - 1) as nat);
        assert(cells[j - 1].style == s);
        assert(style_change(s, s) =~= Seq::<char>::empty());
        assert(rendered(cells, width, k) =~= style_change(s, default_style()) + symbols(
            cells,
            width,
            k,
        ));
    }
}

/// A two-dimensional buffer of cells of a fixed size, rendered to a single
/// string. Resizing clears it.
pub trait Buffer: Sized {
    type Pixel;
    type Error;

    /// The number of columns.
    spec fn columns(&self) -> nat;

    /// The number of rows.
    spec fn lines(&self) -> nat;

    /// A buffer of `width × height` empty cells.
    fn new(width: usize, height: usize) -> (r: Self)
        requires
            width * height <= usize::MAX,
        ensures
            r.columns() == width,
            r.lines() == height,
    ;

    /// Writes the cell at `(x, y)`; fails outside the buffer.
    fn set(&mut self, x: usize, y: usize, value: Self::Pixel) -> (r: Result<(), Self::Error>)
        ensures
            r is Ok <==> (x < old(self).columns() && y < old(self).lines()),
            final(self).columns() == old(self).columns(),
            final(self).lines() == old(self).lines(),
    ;

    /// The cell at `(x, y)`, or `None` outside the buffer.
    fn get(&self, x: usize, y: usize) -> (r: Option<&Self::Pixel>)
        ensures
            r is Some <==> (x < self.columns() && y < self.lines()),
    ;

    /// The cell at `(x, y)` for writing in place, or `None` outside the
    /// buffer.
    fn get_mut(&mut self, x: usize, y: usize) -> (r: Option<&mut Self::Pixel>)
        ensures
            r is Some <==> (x < old(self).columns() && y < old(self).lines()),
    ;

    /// The whole buffer as terminal text.
    fn render(&self) -> String;

    fn width(&self) -> (r: usize)
        ensures
            r == self.columns(),
    ;

    fn height(&self) -> (r: usize)
        ensures
            r == self.lines(),
    ;

    /// Replaces the buffer by one of `width × height` empty cells.
    fn resize(&mut self, width: usize, height: usize)
        requires
            width * height <= usize::MAX,
        ensures
            final(self).columns() == width,
            final(self).lines() == height,
    ;
}

/// A grid of `width × height` cells, row-major.
pub struct PixelBuffer {
    pixels: Vec<Pixel>,
    width: usize,
    height: usize,
}

/// The index of cell `(x, y)` lies in a grid of `w × h` cells.
pub(crate) proof fn lemma_cell_index(x: int, y: int, w: int, h: int)
    requires
        0 <= x < w,
        0 <= y < h,
    ensures
        0 <= y * w + x < w * h,
        0 <= y * w <= y * w + x,
{
    assert(0 <= y * w + x < w * h) by (nonlinear_arith)
        requires
            0 <= x < w,
            0 <= y < h,
    ;
    assert(0 <= y * w) by (nonlinear_arith)
        requires
            0 <= x < w,
            0 <= y < h,
    ;
}

/// A grid with cells has both extents positive.
pub(crate) proof fn lemma_empty_grid(w: int, h: int)
    requires
        w >= 0,
        h >= 0,
        w * h > 0,
    ensures
        w > 0,
        h > 0,
{
    assert(w > 0 && h > 0) by (nonlinear_arith)
        requires
            w >= 0,
            h >= 0,
            w * h > 0,
    ;
}

impl PixelBuffer {
    /// The cells, row by row.
    pub closed spec fn cells(&self) -> Seq<PixelView> {
        pixels_view(self.pixels@)
    }

    /// The number of columns.
    pub closed spec fn spec_width(&self) -> nat {
        self.width as nat
    }

    /// The number of rows.
    pub closed spec fn spec_height(&self) -> nat {
        self.height as nat
    }

    /// Every grid holds one cell per coordinate.
    #[verifier::type_invariant]
    pub open spec fn wf(&self) -> bool {
        self.cells().len() == self.spec_width() * self.spec_height()
    }

    /// The cell at column `x` of row `y`.
    pub open spec fn cell(&self, x: int, y: int) -> PixelView {
        self.cells()[y * self.spec_width() + x]
    }

    fn filled(n: usize) -> (r: Vec<Pixel>)
        ensures
            r@.len() == n,
            forall|i: int| 0 <= i < n ==> (#[trigger] r@[i])@ == fill_pixel(),
    {
        let mut v: Vec<Pixel> = Vec::new();
        let mut i: usize = 0;
        while i < n
            invariant
                i <= n,
                v@.len() == i,
                forall|k: int| 0 <= k < i ==> (#[trigger] v@[k])@ == fill_pixel(),
            decreases n - i,
        {
            v.push(Pixel::fill());
            i = i + 1;
        }
        v
    }

    /// A grid of empty cells.
    pub fn new(width: usize, height: usize) -> (r: PixelBuffer)
        requires
            width * height <= usize::MAX,
        ensures
            r.spec_width() == width,
            r.spec_height() == height,
            forall|i: int| 0 <= i < r.cells().len() ==> #[trigger] r.cells()[i] == fill_pixel(),
    {
        let pixels = PixelBuffer::filled(width * height);
        let r = PixelBuffer { pixels, width, height };
        assert(r.cells().len() == width * height);
        r
    }

    /// The number of cells.
    pub fn len(&self) -> (r: usize)
        ensures
            r == self.cells().len(),
    {
        self.pixels.len()
    }

    /// Whether the two grids have the same extent and cells.
    pub fn same(&self, other: &PixelBuffer) -> (r: bool)
        ensures
            r == (self.cells() == other.cells() && self.spec_width() == other.spec_width()
                && self.spec_height() == other.spec_height()),
    {
        self.width == other.width && self.height == other.height && same_pixels(
            &self.pixels,
            &other.pixels,
        )
    }

    /// The number of columns.
    pub fn width(&self) -> (r: usize)
        ensures
            r == self.spec_width(),
    {
        self.width
    }

    /// The number of rows.
    pub fn height(&self) -> (r: usize)
        ensures
            r == self.spec_height(),
    {
        self.height
    }

    /// The cell at `(x, y)`, or `None` outside the grid.
    pub fn get(&self, x: usize, y: usize) -> (r: Option<&Pixel>)
        ensures
            r.is_some() == (x < self.spec_width() && y < self.spec_height()),
            r.is_some() ==> r.unwrap()@ == self.cell(x as int, y as int),
    {
        proof {
            use_type_invariant(&*self);
        }
        if x >= self.width || y >= self.height {
            return None;
        }
        let n = self.pixels.len();
        proof {
            lemma_cell_index(x as int, y as int, self.width as int, self.height as int);
        }
        Some(&self.pixels[y * self.width + x])
    }

    /// The cell at `(x, y)` for writing in place, or `None` outside the
    /// grid.
    pub fn get_mut(&mut self, x: usize, y: usize) -> (r: Option<&mut Pixel>)
        ensures
            r is Some <==> (x < old(self).spec_width() && y < old(self).spec_height()),
            r is None ==> *final(self) == *old(self),
            r matches Some(p) ==> {
                &&& p@ == old(self).cell(x as int, y as int)
                &&& final(self).spec_width() == old(self).spec_width()
                &&& final(self).spec_height() == old(self).spec_height()
                &&& final(self).cells() == old(self).cells().update(
                    y * old(self).spec_width() + x,
                    final(p)@,
                )
            },
    {
        proof {
            use_type_invariant(&*self);
        }
        if x >= self.width || y >= self.height {
            return None;
        }
        let n = self.pixels.len();
        proof {
            lemma_cell_index(x as int, y as int, self.width as int, self.height as int);
        }
        let i = y * self.width + x;
        Some(&mut self.pixels[i])
    }

    /// Writes `value` into the cell at `(x, y)`; outside the grid nothing
    /// changes and the error says so.
    pub fn set(&mut self, x: usize, y: usize, value: Pixel) -> (r: Result<(), GridError>)
        ensures
            final(self).spec_width() == old(self).spec_width(),
            final(self).spec_height() == old(self).spec_height(),
            r.is_ok() == (x < old(self).spec_width() && y < old(self).spec_height()),
            r.is_ok() ==> final(self).cells() == old(self).cells().update(
                y * old(self).spec_width() + x,
                value@,
            ),
            r.is_err() ==> r == Err::<(), GridError>(GridError::OutOfBounds) && final(self).cells()
                == old(self).cells(),
    {
        proof {
            use_type_invariant(&*self);
        }
        if x >= self.width || y >= self.height {
            return Err(GridError::OutOfBounds);
        }
        let n = self.pixels.len();
        proof {
            lemma_cell_index(x as int, y as int, self.width as int, self.height as int);
        }
        let i = y * self.width + x;
        self.set_index(i, value);
        Ok(())
    }

    /// Writes `value` into cell `i` of the row-major order.
    pub(crate) fn set_index(&mut self, i: usize, value: Pixel)
        requires
            i < old(self).cells().len(),
        ensures
            final(self).spec_width() == old(self).spec_width(),
            final(self).spec_height() == old(self).spec_height(),
            final(self).cells() == old(self).cells().update(i as int, value@),
    {
        proof {
            use_type_invariant(&*self);
        }
        let mut taken = PixelBuffer { pixels: Vec::new(), width: 0, height: 0 };
        std::mem::swap(&mut taken, self);
        let PixelBuffer { mut pixels, width, height } = taken;
        pixels.set(i, value);
        *self = PixelBuffer { pixels, width, height };
        assert(self.cells() =~= old(self).cells().update(i as int, value@));
    }

    /// Replaces the grid by one of `width × height` empty cells; nothing
    /// of the old content is kept.
    pub fn resize(&mut self, width: usize, height: usize)
        requires
            width * height <= usize::MAX,
        ensures
            final(self).spec_width() == width,
            final(self).spec_height() == height,
            forall|i: int|
                0 <= i < final(self).cells().len() ==> #[trigger] final(self).cells()[i]
                    == fill_pixel(),
    {
        *self = PixelBuffer { pixels: PixelBuffer::filled(width * height), width, height };
        assert(self.cells().len() == width * height);
    }

    /// The whole grid as terminal text: rows joined by line breaks, each
    /// cell led by the escape fragment that switches from the style of the
    /// cell before it (the terminal's own colours for the first).
    pub fn render(&self) -> (r: String)
        ensures
            r@ == rendered(self.cells(), self.spec_width(), self.cells().len()),
    {
        proof {
            use_type_invariant(&*self);
        }
        let n = self.pixels.len();
        let start = Style::default_colors();
        let mut out = String::new();
        let mut i: usize = 0;
        while i < n
            invariant
                self.wf(),
                n == self.cells().len(),
                i <= n,
                start@ == default_style(),
                out@ == rendered(self.cells(), self.spec_width(), i as nat),
            decreases n - i,
        {
            let piece = if i == 0 {
                self.pixels[i].format(&start)
            } else {
                self.pixels[i].format(&self.pixels[i - 1].color)
            };
            out.append(piece.as_str());
            proof {
                lemma_empty_grid(self.width as int, self.height as int);
            }
            if (i + 1) % self.width == 0 && i + 1 < n {
                push_char(&mut out, '\n');
            }
            i = i + 1;
        }
        out
    }
}

impl Buffer for PixelBuffer {
    type Pixel = Pixel;
    type Error = GridError;

    open spec fn columns(&self) -> nat {
        self.spec_width()
    }

    open spec fn lines(&self) -> nat {
        self.spec_height()
    }

    fn new(width: usize, height: usize) -> (r: PixelBuffer) {
        PixelBuffer::new(width, height)
    }

    fn set(&mut self, x: usize, y: usize, value: Pixel) -> (r: Result<(), GridError>) {
        PixelBuffer::set(self, x, y, value)
    }

    fn get(&self, x: usize, y: usize) -> (r: Option<&Pixel>) {
        PixelBuffer::get(self, x, y)
    }

    fn get_mut(&mut self, x: usize, y: usize) -> (r: Option<&mut Pixel>) {
        PixelBuffer::get_mut(self, x, y)
    }

    fn render(&self) -> String {
        PixelBuffer::render(self)
    }

    fn width(&self) -> (r: usize) {
        PixelBuffer::width(self)
    }

    fn height(&self) -> (r: usize) {
        PixelBuffer::height(self)
    }

    fn resize(&mut self, width: usize, height: usize) {
        PixelBuffer::resize(self, width, height)
    }
}

} // verus!
