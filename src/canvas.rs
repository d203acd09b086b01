//! A canvas: a backing grid, an optional border painted on its outer ring,
//! the writable region inside it, and an ordered list of children that are
//! drawn into that region.

use vstd::prelude::*;
use crate::buffer::{PixelBuffer, GridError, rendered, lemma_empty_grid};
use crate::pixel::{Pixel, PixelView, fill_pixel, pixels_view};
use crate::style::{Style, StyleView, default_style};
use crate::text::{Text, rows_view};
use crate::viewable::Viewable;

verus! {

broadcast use vstd::std_specs::vec::axiom_vec_index_decreases;

/// Why a canvas operation failed.
#[derive(Debug, PartialEq, Eq, Structural, Clone, Copy)]
pub enum CanvasError {
    /// The canvas would be wider than the terminal.
    WidthExceedsTerminal,
    /// The canvas would be taller than the terminal.
    HeightExceedsTerminal,
    /// No child equal to the one given is held.
    ChildNotFound,
}

/// Why a child is not of the kind asked for.
#[derive(Debug, PartialEq, Eq, Structural, Clone, Copy)]
pub enum ViewError {
    NotText,
    NotCanvas,
}

/// A child of a canvas.
pub enum Element {
    Text(Text),
    Canvas(Box<Canvas>),
}

/// A grid with an optional border, its writable region, and its children.
pub struct Canvas {
    grid: PixelBuffer,
    border: bool,
    border_style: Style,
    children: Vec<Element>,
    x: u16,
    y: u16,
}

/// How far the writable region lies inside the grid.
pub open spec fn inset(border: bool) -> int {
    if border {
        1
    } else {
        0
    }
}

/// The extent of the writable region along an axis of `n` cells: two less
/// with a border (none left of fewer than two), all of it without.
pub open spec fn active_extent(n: int, border: bool) -> int {
    if border {
        if n >= 2 {
            n - 2
        } else {
            0
        }
    } else {
        n
    }
}

/// Whether grid cell `(row i, column j)` lies in the writable region.
pub open spec fn in_active(i: int, j: int, w: int, h: int, border: bool) -> bool {
    let o = inset(border);
    o <= i < o + active_extent(h, border) && o <= j < o + active_extent(w, border)
}

/// Whether grid cell `(i, j)` lies on the outer ring of a `w × h` grid.
pub open spec fn on_edge(i: int, j: int, w: int, h: int) -> bool {
    i == 0 || i == h - 1 || j == 0 || j == w - 1
}

/// The box-drawing character of ring cell `(i, j)`.
pub open spec fn border_glyph(i: int, j: int, w: int, h: int) -> char {
    if i == 0 {
        if j == 0 {
            '┌'
        } else if j == w - 1 {
            '┐'
        } else {
            '─'
        }
    } else if i == h - 1 {
        if j == 0 {
            '└'
        } else if j == w - 1 {
            '┘'
        } else {
            '─'
        }
    } else {
        '│'
    }
}

/// The cells after the outer ring is painted: box-drawing characters in
/// `style` with a border, empty cells without; the inside is kept.
pub open spec fn with_border(
    cells: Seq<PixelView>,
    w: int,
    h: int,
    border: bool,
    style: StyleView,
) -> Seq<PixelView> {
    Seq::new(
        cells.len(),
        |k: int|
            {
                let i = k / w;
                let j = k % w;
                if on_edge(i, j, w, h) {
                    if border {
                        PixelView { symbol: border_glyph(i, j, w, h), style }
                    } else {
                        fill_pixel()
                    }
                } else {
                    cells[k]
                }
            },
    )
}

/// The cells after the writable region is emptied.
pub open spec fn cleared(cells: Seq<PixelView>, w: int, h: int, border: bool) -> Seq<PixelView> {
    Seq::new(
        cells.len(),
        |k: int|
            if in_active(k / w, k % w, w, h, border) {
                fill_pixel()
            } else {
                cells[k]
            },
    )
}

/// Whether the text's rows cover cell `(r, c)` of the writable region.
pub open spec fn covers(t: Text, r: int, c: int) -> bool {
    let rr = r - t.pos_y();
    let cc = c - t.pos_x();
    0 <= rr < t.rows().len() && 0 <= cc < t.rows()[rr].len()
}

/// The cells after the text is drawn at its anchor in the writable region;
/// what falls outside the region is left out.
pub open spec fn drawn_text(
    cells: Seq<PixelView>,
    w: int,
    h: int,
    border: bool,
    t: Text,
) -> Seq<PixelView> {
    Seq::new(
        cells.len(),
        |k: int|
            {
                let r = k / w - inset(border);
                let c = k % w - inset(border);
                if in_active(k / w, k % w, w, h, border) && covers(t, r, c) {
                    t.rows()[r - t.pos_y()][c - t.pos_x()]
                } else {
                    cells[k]
                }
            },
    )
}

/// The cells after a render pass over `kids`: the writable region emptied,
/// then each text child drawn over it in order. Nested canvases are held
/// but not drawn.
pub open spec fn composed(
    cells: Seq<PixelView>,
    w: int,
    h: int,
    border: bool,
    kids: Seq<Element>,
) -> Seq<PixelView>
    decreases kids.len(),
{
    if kids.len() == 0 {
        cleared(cells, w, h, border)
    } else {
        let before = composed(cells, w, h, border, kids.drop_last());
        match kids.last() {
            Element::Text(t) => drawn_text(before, w, h, border, t),
            Element::Canvas(_) => before,
        }
    }
}

/// `target` up to index `k`, `start` from there on.
pub open spec fn prefix_of(target: Seq<PixelView>, start: Seq<PixelView>, k: int) -> Seq<
    PixelView,
> {
    Seq::new(start.len(), |m: int| if m < k { target[m] } else { start[m] })
}

/// A `w × h` grid of empty cells.
pub open spec fn blank_cells(n: nat) -> Seq<PixelView> {
    Seq::new(n, |k: int| fill_pixel())
}

/// Painting the border twice paints it once.
pub proof fn lemma_border_idempotent(
    cells: Seq<PixelView>,
    w: int,
    h: int,
    border: bool,
    style: StyleView,
)
    ensures
        with_border(with_border(cells, w, h, border, style), w, h, border, style) == with_border(
            cells,
            w,
            h,
            border,
            style,
        ),
{
    assert(with_border(with_border(cells, w, h, border, style), w, h, border, style) =~= with_border(
        cells,
        w,
        h,
        border,
        style,
    ));
}

/// Toggling the border twice gives back a writable region of the same
/// extent, and every cell off the outer ring as it was.
pub proof fn lemma_toggle_twice(
    cells: Seq<PixelView>,
    w: int,
    h: int,
    border: bool,
    style: StyleView,
)
    ensures
        ({
            let twice = with_border(with_border(cells, w, h, !border, style), w, h, border, style);
            &&& twice.len() == cells.len()
            &&& forall|k: int|
                0 <= k < cells.len() && !on_edge(k / w, k % w, w, h) ==> #[trigger] twice[k]
                    == cells[k]
            &&& active_extent(w, !!border) == active_extent(w, border)
            &&& active_extent(h, !!border) == active_extent(h, border)
        }),
{
}

/// Whether two canvases agree in everything but their children.
pub open spec fn same_frame(c: Canvas, d: Canvas) -> bool {
    c.cells() == d.cells() && c.spec_width() == d.spec_width() && c.spec_height()
        == d.spec_height() && c.has_border() == d.has_border() && c.border_style()
        == d.border_style() && c.pos_x() == d.pos_x() && c.pos_y() == d.pos_y()
}

/// Whether two children are structurally equal: texts with the same cells,
/// rows, width and anchor, or canvases that agree in everything and whose
/// children are pairwise equal.
pub open spec fn same_view(a: Element, b: Element) -> bool
    decreases a,
{
    match a {
        Element::Text(t) => match b {
            Element::Text(u) => t.content() == u.content() && t.rows() == u.rows() && t.wrap_width()
                == u.wrap_width() && t.pos_x() == u.pos_x() && t.pos_y() == u.pos_y(),
            Element::Canvas(_) => false,
        },
        Element::Canvas(c) => match b {
            Element::Text(_) => false,
            Element::Canvas(d) => same_frame(*c, *d) && c.kids().len() == d.kids().len()
                && forall|i: int|
                0 <= i < c.kids().len() ==> same_view(#[trigger] c.kids()[i], d.kids()[i]),
        },
    }
}

fn glyph(i: usize, j: usize, w: usize, h: usize) -> (r: char)
    ensures
        r == border_glyph(i as int, j as int, w as int, h as int),
{
    if i == 0 {
        if j == 0 {
            '┌'
        } else if w > 0 && j == w - 1 {
            '┐'
        } else {
            '─'
        }
    } else if h > 0 && i == h - 1 {
        if j == 0 {
            '└'
        } else if w > 0 && j == w - 1 {
            '┘'
        } else {
            '─'
        }
    } else {
        '│'
    }
}

fn extent(n: usize, border: bool) -> (r: usize)
    ensures
        r == active_extent(n as int, border),
{
    if border {
        if n >= 2 {
            n - 2
        } else {
            0
        }
    } else {
        n
    }
}

/// Paints the outer ring of `grid`.
fn paint_border(grid: &mut PixelBuffer, border: bool, style: &Style)
    ensures
        final(grid).spec_width() == old(grid).spec_width(),
        final(grid).spec_height() == old(grid).spec_height(),
        final(grid).cells() == with_border(
            old(grid).cells(),
            old(grid).spec_width() as int,
            old(grid).spec_height() as int,
            border,
            style@,
        ),
{
    proof {
        use_type_invariant(&*grid);
    }
    let n = grid.len();
    let w = grid.width();
    let h = grid.height();
    let ghost start = grid.cells();
    let ghost target = with_border(start, w as int, h as int, border, style@);
    let mut k: usize = 0;
    while k < n
        invariant
            grid.spec_width() == w,
            grid.spec_height() == h,
            n == start.len(),
            n == w * h,
            target == with_border(start, w as int, h as int, border, style@),
            k <= n,
            grid.cells() == prefix_of(target, start, k as int),
        decreases n - k,
    {
        proof {
            lemma_empty_grid(w as int, h as int);
        }
        let i = k / w;
        let j = k % w;
        if i == 0 || i == h - 1 || j == 0 || j == w - 1 {
            let p = if border {
                Pixel::new(style.duplicate(), glyph(i, j, w, h))
            } else {
                Pixel::fill()
            };
            grid.set_index(k, p);
        }
        assert(grid.cells() =~= prefix_of(target, start, k + 1));
        k = k + 1;
    }
    assert(prefix_of(target, start, n as int) =~= target);
}

/// Empties the writable region of `grid`.
fn clear_region(grid: &mut PixelBuffer, border: bool)
    ensures
        final(grid).spec_width() == old(grid).spec_width(),
        final(grid).spec_height() == old(grid).spec_height(),
        final(grid).cells() == cleared(
            old(grid).cells(),
            old(grid).spec_width() as int,
            old(grid).spec_height() as int,
            border,
        ),
{
    proof {
        use_type_invariant(&*grid);
    }
    let n = grid.len();
    let w = grid.width();
    let h = grid.height();
    let o: usize = if border {
        1
    } else {
        0
    };
    let aw = extent(w, border);
    let ah = extent(h, border);
    let ghost start = grid.cells();
    let ghost target = cleared(start, w as int, h as int, border);
    let mut k: usize = 0;
    while k < n
        invariant
            grid.spec_width() == w,
            grid.spec_height() == h,
            n == start.len(),
            n == w * h,
            o == inset(border),
            aw == active_extent(w as int, border),
            ah == active_extent(h as int, border),
            target == cleared(start, w as int, h as int, border),
            k <= n,
            grid.cells() == prefix_of(target, start, k as int),
        decreases n - k,
    {
        proof {
            lemma_empty_grid(w as int, h as int);
        }
        let i = k / w;
        let j = k % w;
        if o <= i && i < o + ah && o <= j && j < o + aw {
            grid.set_index(k, Pixel::fill());
        }
        assert(grid.cells() =~= prefix_of(target, start, k + 1));
        k = k + 1;
    }
    assert(prefix_of(target, start, n as int) =~= target);
}

/// Draws `t` at its anchor in the writable region of `grid`.
fn paint_text(grid: &mut PixelBuffer, border: bool, t: &Text)
    ensures
        final(grid).spec_width() == old(grid).spec_width(),
        final(grid).spec_height() == old(grid).spec_height(),
        final(grid).cells() == drawn_text(
            old(grid).cells(),
            old(grid).spec_width() as int,
            old(grid).spec_height() as int,
            border,
            *t,
        ),
{
    proof {
        use_type_invariant(&*grid);
    }
    let n = grid.len();
    let w = grid.width();
    let h = grid.height();
    let o: usize = if border {
        1
    } else {
        0
    };
    let aw = extent(w, border);
    let ah = extent(h, border);
    let rows = t.view();
    let (tx, ty) = t.position();
    let ghost start = grid.cells();
    let ghost target = drawn_text(start, w as int, h as int, border, *t);
    let mut k: usize = 0;
    while k < n
        invariant
            grid.spec_width() == w,
            grid.spec_height() == h,
            n == start.len(),
            n == w * h,
            o == inset(border),
            aw == active_extent(w as int, border),
            ah == active_extent(h as int, border),
            rows_view(rows@) == t.rows(),
            tx == t.pos_x(),
            ty == t.pos_y(),
            target == drawn_text(start, w as int, h as int, border, *t),
            k <= n,
            grid.cells() == prefix_of(target, start, k as int),
        decreases n - k,
    {
        proof {
            lemma_empty_grid(w as int, h as int);
        }
        let i = k / w;
        let j = k % w;
        if o <= i && i < o + ah && o <= j && j < o + aw {
            let r = i - o;
            let c = j - o;
            if ty <= r && r - ty < rows.len() {
                let rr = r - ty;
                if tx <= c && c - tx < rows[rr].len() {
                    let cc = c - tx;
                    assert(rows_view(rows@)[rr as int] == pixels_view(rows@[rr as int]@));
                    grid.set_index(k, rows[rr][cc].duplicate());
                }
            }
        }
        assert(grid.cells() =~= prefix_of(target, start, k + 1));
        k = k + 1;
    }
    assert(prefix_of(target, start, n as int) =~= target);
}

impl Element {
    /// The text this child holds, if it is one.
    pub fn to_text(&self) -> (r: Result<&Text, ViewError>)
        ensures
            match self {
                Element::Text(t) => r == Ok::<&Text, ViewError>(t),
                Element::Canvas(_) => r == Err::<&Text, ViewError>(ViewError::NotText),
            },
    {
        match self {
            Element::Text(t) => Ok(t),
            Element::Canvas(_) => Err(ViewError::NotText),
        }
    }

    /// The canvas this child holds, if it is one.
    pub fn to_canvas(&self) -> (r: Result<&Canvas, ViewError>)
        ensures
            match self {
                Element::Canvas(c) => r == Ok::<&Canvas, ViewError>(&**c),
                Element::Text(_) => r == Err::<&Canvas, ViewError>(ViewError::NotCanvas),
            },
    {
        match self {
            Element::Canvas(c) => Ok(&**c),
            Element::Text(_) => Err(ViewError::NotCanvas),
        }
    }

    /// Structural equality.
    pub fn same(&self, other: &Element) -> (r: bool)
        ensures
            r == same_view(*self, *other),
        decreases self,
    {
        match self {
            Element::Text(t) => match other {
                Element::Text(u) => t.same(u),
                Element::Canvas(_) => false,
            },
            Element::Canvas(c) => match other {
                Element::Text(_) => false,
                Element::Canvas(d) => {
                    if !(c.grid.same(&d.grid) && c.border == d.border && c.border_style.same(
                        &d.border_style,
                    ) && c.x == d.x && c.y == d.y && c.children.len() == d.children.len()) {
                        return false;
                    }
                    let n = c.children.len();
                    let mut i: usize = 0;
                    while i < n
                        invariant
                            *self == Element::Canvas(*c),
                            *other == Element::Canvas(*d),
                            same_frame(**c, **d),
                            n == c.children@.len(),
                            n == d.children@.len(),
                            i <= n,
                            forall|k: int|
                                0 <= k < i ==> same_view(
                                    #[trigger] c.children@[k],
                                    d.children@[k],
                                ),
                        decreases n - i,
                    {
                        proof {
                            assert(decreases_to!(*self => (*self)->Canvas_0));
                            assert(decreases_to!(c.children => c.children[i as int]));
                        }
                        if !c.children[i].same(&d.children[i]) {
                            assert(!same_view(c.children@[i as int], d.children@[i as int]));
                            return false;
                        }
                        i = i + 1;
                    }
                    true
                },
            },
        }
    }
}

impl From<Text> for Element {
    fn from(value: Text) -> (r: Element) {
        Element::Text(value)
    }
}

impl vstd::std_specs::convert::FromSpecImpl<Text> for Element {
    open spec fn obeys_from_spec() -> bool {
        true
    }

    open spec fn from_spec(value: Text) -> Element {
        Element::Text(value)
    }
}

impl From<Canvas> for Element {
    fn from(value: Canvas) -> (r: Element) {
        Element::Canvas(Box::new(value))
    }
}

impl vstd::std_specs::convert::FromSpecImpl<Canvas> for Element {
    open spec fn obeys_from_spec() -> bool {
        true
    }

    open spec fn from_spec(value: Canvas) -> Element {
        Element::Canvas(Box::new(value))
    }
}

impl Viewable for Canvas {
    /// The width of the writable region.
    open spec fn shown_width(&self) -> int {
        self.region_width()
    }

    /// The height of the writable region.
    open spec fn shown_height(&self) -> int {
        self.region_height()
    }

    open spec fn anchor(&self) -> (int, int) {
        (self.pos_x() as int, self.pos_y() as int)
    }

    fn width(&self) -> (r: usize) {
        self.active_width()
    }

    fn height(&self) -> (r: usize) {
        self.active_height()
    }

    fn position(&self) -> (r: (usize, usize)) {
        (self.x as usize, self.y as usize)
    }
}

/// The cells that a freshly made canvas holds.
pub open spec fn fresh_cells(w: int, h: int, border: bool, style: StyleView) -> Seq<PixelView> {
    with_border(blank_cells((w * h) as nat), w, h, border, style)
}

impl Canvas {
    /// The backing grid's cells, row by row, border included.
    pub closed spec fn cells(&self) -> Seq<PixelView> {
        self.grid.cells()
    }

    /// The width of the backing grid.
    pub closed spec fn spec_width(&self) -> int {
        self.grid.spec_width() as int
    }

    /// The height of the backing grid.
    pub closed spec fn spec_height(&self) -> int {
        self.grid.spec_height() as int
    }

    /// Whether the border is on.
    pub closed spec fn has_border(&self) -> bool {
        self.border
    }

    /// The style the border is painted in.
    pub closed spec fn border_style(&self) -> StyleView {
        self.border_style@
    }

    /// The children, in the order they were appended.
    pub closed spec fn kids(&self) -> Seq<Element> {
        self.children@
    }

    /// The column of the anchor on the screen.
    pub closed spec fn pos_x(&self) -> u16 {
        self.x
    }

    /// The row of the anchor on the screen.
    pub closed spec fn pos_y(&self) -> u16 {
        self.y
    }

    /// The width of the writable region.
    pub open spec fn region_width(&self) -> int {
        active_extent(self.spec_width(), self.has_border())
    }

    /// The height of the writable region.
    pub open spec fn region_height(&self) -> int {
        active_extent(self.spec_height(), self.has_border())
    }

    /// The grid index of cell `(x, y)` of the writable region.
    pub open spec fn region_index(&self, x: int, y: int) -> int {
        (y + inset(self.has_border())) * self.spec_width() + x + inset(self.has_border())
    }

    /// A canvas of `width × height` cells at `(x, y)`, with its border
    /// painted when `border` is set. It may be no larger than a terminal of
    /// `cols × rows`.
    pub fn create(
        x: u16,
        y: u16,
        width: u16,
        height: u16,
        border: bool,
        border_style: Style,
        cols: u16,
        rows: u16,
    ) -> (r: Result<Canvas, CanvasError>)
        ensures
            width > cols ==> r == Err::<Canvas, CanvasError>(CanvasError::WidthExceedsTerminal),
            width <= cols && height > rows ==> r == Err::<Canvas, CanvasError>(
                CanvasError::HeightExceedsTerminal,
            ),
            width <= cols && height <= rows ==> r is Ok,
            r matches Ok(c) ==> {
                &&& c.spec_width() == width
                &&& c.spec_height() == height
                &&& c.has_border() == border
                &&& c.border_style() == border_style@
                &&& c.kids().len() == 0
                &&& c.pos_x() == x
                &&& c.pos_y() == y
                &&& c.cells() == fresh_cells(width as int, height as int, border, border_style@)
            },
    {
        if width > cols {
            return Err(CanvasError::WidthExceedsTerminal);
        }
        if height > rows {
            return Err(CanvasError::HeightExceedsTerminal);
        }
        Ok(Canvas::make(x, y, width, height, border, border_style))
    }

    fn make(x: u16, y: u16, width: u16, height: u16, border: bool, border_style: Style) -> (c:
        Canvas)
        ensures
            c.spec_width() == width,
            c.spec_height() == height,
            c.has_border() == border,
            c.border_style() == border_style@,
            c.kids().len() == 0,
            c.pos_x() == x,
            c.pos_y() == y,
            c.cells() == fresh_cells(width as int, height as int, border, border_style@),
    {
        let w = width as usize;
        let h = height as usize;
        assert(w * h <= 0xffff * 0xffff) by (nonlinear_arith)
            requires
                w <= 0xffff,
                h <= 0xffff,
        ;
        let mut grid = PixelBuffer::new(w, h);
        proof {
            use_type_invariant(&grid);
        }
        assert(grid.cells() =~= blank_cells((w * h) as nat));
        paint_border(&mut grid, border, &border_style);
        Canvas { grid, border, border_style, children: Vec::new(), x, y }
    }

    /// A canvas that fills a terminal of `cols × rows`, at the origin, with
    /// its border in the terminal's own colours.
    pub fn new(border: bool, cols: u16, rows: u16) -> (r: Canvas)
        ensures
            r.spec_width() == cols,
            r.spec_height() == rows,
            r.has_border() == border,
            r.border_style() == default_style(),
            r.kids().len() == 0,
            r.pos_x() == 0,
            r.pos_y() == 0,
            r.cells() == fresh_cells(cols as int, rows as int, border, default_style()),
    {
        Canvas::make(0, 0, cols, rows, border, Style::default_colors())
    }

    /// Empties the writable region; the border stays.
    pub fn reset(&mut self)
        ensures
            final(self).cells() == cleared(
                old(self).cells(),
                old(self).spec_width(),
                old(self).spec_height(),
                old(self).has_border(),
            ),
            final(self).spec_width() == old(self).spec_width(),
            final(self).spec_height() == old(self).spec_height(),
            final(self).has_border() == old(self).has_border(),
            final(self).border_style() == old(self).border_style(),
            final(self).kids() == old(self).kids(),
            final(self).pos_x() == old(self).pos_x(),
            final(self).pos_y() == old(self).pos_y(),
    {
        clear_region(&mut self.grid, self.border);
    }

    /// Paints the outer ring again: box-drawing characters in the border
    /// style with a border, empty cells without.
    pub fn border(&mut self)
        ensures
            final(self).cells() == with_border(
                old(self).cells(),
                old(self).spec_width(),
                old(self).spec_height(),
                old(self).has_border(),
                old(self).border_style(),
            ),
            final(self).spec_width() == old(self).spec_width(),
            final(self).spec_height() == old(self).spec_height(),
            final(self).has_border() == old(self).has_border(),
            final(self).border_style() == old(self).border_style(),
            final(self).kids() == old(self).kids(),
            final(self).pos_x() == old(self).pos_x(),
            final(self).pos_y() == old(self).pos_y(),
    {
        paint_border(&mut self.grid, self.border, &self.border_style);
    }

    /// Takes a new border style and paints the ring with it.
    pub fn update_border_style(&mut self, style: Style)
        ensures
            final(self).cells() == with_border(
                old(self).cells(),
                old(self).spec_width(),
                old(self).spec_height(),
                old(self).has_border(),
                style@,
            ),
            final(self).border_style() == style@,
            final(self).spec_width() == old(self).spec_width(),
            final(self).spec_height() == old(self).spec_height(),
            final(self).has_border() == old(self).has_border(),
            final(self).kids() == old(self).kids(),
            final(self).pos_x() == old(self).pos_x(),
            final(self).pos_y() == old(self).pos_y(),
    {
        self.border_style = style;
        paint_border(&mut self.grid, self.border, &self.border_style);
    }

    /// Switches the border on or off: the ring is painted or emptied, and
    /// the writable region grows or shrinks by one cell on each side.
    pub fn toggle_border(&mut self)
        ensures
            final(self).has_border() == !old(self).has_border(),
            final(self).cells() == with_border(
                old(self).cells(),
                old(self).spec_width(),
                old(self).spec_height(),
                !old(self).has_border(),
                old(self).border_style(),
            ),
            final(self).spec_width() == old(self).spec_width(),
            final(self).spec_height() == old(self).spec_height(),
            final(self).border_style() == old(self).border_style(),
            final(self).kids() == old(self).kids(),
            final(self).pos_x() == old(self).pos_x(),
            final(self).pos_y() == old(self).pos_y(),
    {
        self.border = !self.border;
        paint_border(&mut self.grid, self.border, &self.border_style);
    }

    /// Adds a child after the others.
    pub fn append(&mut self, child: Element)
        ensures
            final(self).kids() == old(self).kids().push(child),
            final(self).cells() == old(self).cells(),
            final(self).spec_width() == old(self).spec_width(),
            final(self).spec_height() == old(self).spec_height(),
            final(self).has_border() == old(self).has_border(),
            final(self).border_style() == old(self).border_style(),
            final(self).pos_x() == old(self).pos_x(),
            final(self).pos_y() == old(self).pos_y(),
    {
        self.children.push(child);
    }

    /// Takes out the first child structurally equal to `child` and returns
    /// it; without one, nothing changes.
    pub fn remove(&mut self, child: &Element) -> (r: Result<Element, CanvasError>)
        ensures
            r is Ok <==> exists|i: int|
                0 <= i < old(self).kids().len() && same_view(#[trigger] old(self).kids()[i], *child),
            r is Err ==> r == Err::<Element, CanvasError>(CanvasError::ChildNotFound)
                && final(self).kids() == old(self).kids(),
            r matches Ok(v) ==> exists|i: int|
                0 <= i < old(self).kids().len() && same_view(#[trigger] old(self).kids()[i], *child)
                    && (forall|j: int| 0 <= j < i ==> !same_view(#[trigger] old(self).kids()[j], *child))
                    && v == old(self).kids()[i] && final(self).kids() == old(self).kids().remove(i),
            final(self).cells() == old(self).cells(),
            final(self).spec_width() == old(self).spec_width(),
            final(self).spec_height() == old(self).spec_height(),
            final(self).has_border() == old(self).has_border(),
            final(self).border_style() == old(self).border_style(),
            final(self).pos_x() == old(self).pos_x(),
            final(self).pos_y() == old(self).pos_y(),
    {
        let n = self.children.len();
        let mut i: usize = 0;
        while i < n
            invariant
                n == self.children@.len(),
                *self == *old(self),
                i <= n,
                forall|j: int| 0 <= j < i ==> !same_view(#[trigger] self.children@[j], *child),
            decreases n - i,
        {
            if self.children[i].same(child) {
                assert(same_view(old(self).kids()[i as int], *child));
                let v = self.children.remove(i);
                assert(v == old(self).kids()[i as int]);
                return Ok(v);
            }
            i = i + 1;
        }
        Err(CanvasError::ChildNotFound)
    }

    /// The child at `index`, if there is one.
    pub fn get(&self, index: usize) -> (r: Option<&Element>)
        ensures
            r is Some <==> index < self.kids().len(),
            r matches Some(v) ==> *v == self.kids()[index as int],
    {
        if index < self.children.len() {
            Some(&self.children[index])
        } else {
            None
        }
    }

    /// The number of children.
    pub fn len(&self) -> (r: usize)
        ensures
            r == self.kids().len(),
    {
        self.children.len()
    }

    /// The width of the backing grid.
    pub fn grid_width(&self) -> (r: usize)
        ensures
            r == self.spec_width(),
    {
        self.grid.width()
    }

    /// The height of the backing grid.
    pub fn grid_height(&self) -> (r: usize)
        ensures
            r == self.spec_height(),
    {
        self.grid.height()
    }

    /// The cell at `(x, y)` of the backing grid, border included.
    pub fn cell(&self, x: usize, y: usize) -> (r: Option<&Pixel>)
        ensures
            r is Some <==> (x < self.spec_width() && y < self.spec_height()),
            r matches Some(p) ==> p@ == self.cells()[y * self.spec_width() + x],
    {
        self.grid.get(x, y)
    }

    /// Whether the border is on.
    pub fn is_bordered(&self) -> (r: bool)
        ensures
            r == self.has_border(),
    {
        self.border
    }

    /// The width of the writable region.
    pub fn active_width(&self) -> (r: usize)
        ensures
            r == self.region_width(),
    {
        extent(self.grid.width(), self.border)
    }

    /// The height of the writable region.
    pub fn active_height(&self) -> (r: usize)
        ensures
            r == self.region_height(),
    {
        extent(self.grid.height(), self.border)
    }

    /// The cell at `(x, y)` of the writable region, if it lies there.
    pub fn at(&self, x: usize, y: usize) -> (r: Option<&Pixel>)
        ensures
            r is Some <==> (x < self.region_width() && y < self.region_height()),
            r matches Some(p) ==> p@ == self.cells()[self.region_index(x as int, y as int)],
    {
        let aw = self.active_width();
        let ah = self.active_height();
        if x >= aw || y >= ah {
            return None;
        }
        let o: usize = if self.border {
            1
        } else {
            0
        };
        self.grid.get(x + o, y + o)
    }

    /// Writes `value` into cell `(x, y)` of the writable region, which is
    /// the same cell of the backing grid; outside the region nothing
    /// changes and the error says so.
    pub fn put(&mut self, x: usize, y: usize, value: Pixel) -> (r: Result<(), GridError>)
        ensures
            r is Ok <==> (x < old(self).region_width() && y < old(self).region_height()),
            r is Ok ==> final(self).cells() == old(self).cells().update(
                old(self).region_index(x as int, y as int),
                value@,
            ),
            r is Err ==> r == Err::<(), GridError>(GridError::OutOfBounds) && final(self).cells()
                == old(self).cells(),
            final(self).spec_width() == old(self).spec_width(),
            final(self).spec_height() == old(self).spec_height(),
            final(self).has_border() == old(self).has_border(),
            final(self).border_style() == old(self).border_style(),
            final(self).kids() == old(self).kids(),
            final(self).pos_x() == old(self).pos_x(),
            final(self).pos_y() == old(self).pos_y(),
    {
        let aw = self.active_width();
        let ah = self.active_height();
        if x >= aw || y >= ah {
            return Err(GridError::OutOfBounds);
        }
        let o: usize = if self.border {
            1
        } else {
            0
        };
        self.grid.set(x + o, y + o, value)
    }

    /// The writable region as rows of cells.
    pub fn view(&self) -> (r: Vec<Vec<Pixel>>)
        ensures
            r@.len() == self.region_height(),
            forall|i: int| 0 <= i < r@.len() ==> (#[trigger] r@[i])@.len() == self.region_width(),
            forall|i: int, j: int|
                0 <= i < self.region_height() && 0 <= j < self.region_width() ==> (
                #[trigger] r@[i]@[j])@ == self.cells()[self.region_index(j, i)],
    {
        let aw = self.active_width();
        let ah = self.active_height();
        let mut out: Vec<Vec<Pixel>> = Vec::new();
        let mut i: usize = 0;
        while i < ah
            invariant
                aw == self.region_width(),
                ah == self.region_height(),
                i <= ah,
                out@.len() == i,
                forall|a: int| 0 <= a < i ==> (#[trigger] out@[a])@.len() == aw,
                forall|a: int, b: int|
                    0 <= a < i && 0 <= b < aw ==> (#[trigger] out@[a]@[b])@ == self.cells()[self.region_index(b, a)],
            decreases ah - i,
        {
            let mut row: Vec<Pixel> = Vec::new();
            let mut j: usize = 0;
            while j < aw
                invariant
                    aw == self.region_width(),
                    ah == self.region_height(),
                    i < ah,
                    j <= aw,
                    row@.len() == j,
                    forall|b: int| 0 <= b < j ==> (#[trigger] row@[b])@ == self.cells()[self.region_index(b, i as int)],
                decreases aw - j,
            {
                match self.at(j, i) {
                    Some(p) => row.push(p.duplicate()),
                    None => {
                        assert(false);
                    },
                }
                j = j + 1;
            }
            out.push(row);
            i = i + 1;
        }
        out
    }

    /// Draws the children into the writable region: the region is emptied,
    /// then each text child is copied in at its anchor, in append order, a
    /// later one over an earlier one. Cells of a child that fall outside
    /// the region are left out; nested canvases are held but not drawn.
    pub fn render(&mut self)
        ensures
            final(self).cells() == composed(
                old(self).cells(),
                old(self).spec_width(),
                old(self).spec_height(),
                old(self).has_border(),
                old(self).kids(),
            ),
            final(self).spec_width() == old(self).spec_width(),
            final(self).spec_height() == old(self).spec_height(),
            final(self).has_border() == old(self).has_border(),
            final(self).border_style() == old(self).border_style(),
            final(self).kids() == old(self).kids(),
            final(self).pos_x() == old(self).pos_x(),
            final(self).pos_y() == old(self).pos_y(),
    {
        let ghost start = self.cells();
        let ghost w = self.spec_width();
        let ghost h = self.spec_height();
        self.reset();
        let n = self.children.len();
        let mut i: usize = 0;
        assert(self.kids().take(0) =~= Seq::<Element>::empty());
        while i < n
            invariant
                n == self.kids().len(),
                i <= n,
                self.kids() == old(self).kids(),
                self.spec_width() == w,
                self.spec_height() == h,
                self.has_border() == old(self).has_border(),
                self.border_style() == old(self).border_style(),
                self.pos_x() == old(self).pos_x(),
                self.pos_y() == old(self).pos_y(),
                self.cells() == composed(start, w, h, self.has_border(), self.kids().take(i as int)),
            decreases n - i,
        {
            assert(self.kids().take(i + 1).drop_last() =~= self.kids().take(i as int));
            match &self.children[i] {
                Element::Text(t) => paint_text(&mut self.grid, self.border, t),
                Element::Canvas(_) => {},
            }
            i = i + 1;
        }
        assert(self.kids().take(n as int) =~= self.kids());
    }

    /// The backing grid, border included, as terminal text: rows joined by
    /// line breaks, each cell led by the escape fragment that switches from
    /// the style of the cell before it.
    pub fn to_string(&self) -> (r: String)
        ensures
            r@ == rendered(self.cells(), self.spec_width() as nat, self.cells().len()),
    {
        self.grid.render()
    }
}

} // verus!
