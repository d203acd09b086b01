//! A run of cells wrapped into rows of a fixed width, anchored at a position
//! inside its parent's writable region.

use vstd::prelude::*;
use vstd::arithmetic::div_mod::{lemma_div_plus_one, lemma_fundamental_div_mod_converse};
use crate::pixel::{Pixel, PixelView, pixels_view};
use crate::viewable::Viewable;
use crate::chars::push_char;

verus! {

/// Why a text could not be wrapped.
#[derive(Debug, PartialEq, Eq, Structural, Clone, Copy)]
pub enum TextError {
    /// A wrap width of zero was asked for.
    DegenerateWrapWidth,
}

proof fn lemma_pixels_view_push(a: Seq<Pixel>, p: Pixel)
    ensures
        pixels_view(a.push(p)) == pixels_view(a).push(p@),
{
    assert(pixels_view(a.push(p)) =~= pixels_view(a).push(p@));
}

proof fn lemma_rows_view_push(a: Seq<Vec<Pixel>>, r: Vec<Pixel>)
    ensures
        rows_view(a.push(r)) == rows_view(a).push(pixels_view(r@)),
{
    assert(rows_view(a.push(r)) =~= rows_view(a).push(pixels_view(r@)));
}

/// The characters of a run of cells.
pub open spec fn symbols_of(s: Seq<PixelView>) -> Seq<char> {
    s.map_values(|p: PixelView| p.symbol)
}

/// The rows of a vector of rows as the contracts see them.
pub open spec fn rows_view(v: Seq<Vec<Pixel>>) -> Seq<Seq<PixelView>> {
    v.map_values(|r: Vec<Pixel>| pixels_view(r@))
}

/// The width that `n` cells are wrapped at when `width` is asked for: never
/// more than the content.
pub open spec fn effective_width(n: nat, width: nat) -> nat {
    if n <= width {
        n
    } else {
        width
    }
}

/// `n / k`, rounded up.
pub open spec fn ceil_div(n: nat, k: nat) -> nat {
    ((n + k - 1) / (k as int)) as nat
}

/// `s` cut into consecutive rows of `k` cells; the last row holds the rest.
pub open spec fn wrap(s: Seq<PixelView>, k: nat) -> Seq<Seq<PixelView>>
    decreases s.len(),
{
    if s.len() == 0 || k == 0 {
        Seq::empty()
    } else if s.len() <= k {
        seq![s]
    } else {
        seq![s.take(k as int)] + wrap(s.skip(k as int), k)
    }
}

/// Wrapping `n > 0` cells at any `width > 0` gives `ceil(n / k)` rows, with
/// `k` the effective width; every row but the last holds `k` cells, and the
/// rows read in order give back the cells.
pub proof fn lemma_wrap_rows(s: Seq<PixelView>, width: nat)
    requires
        width > 0,
        s.len() > 0,
    ensures
        ({
            let k = effective_width(s.len(), width);
            let rows = wrap(s, k);
            &&& rows.len() == ceil_div(s.len(), k)
            &&& rows.flatten() == s
            &&& forall|j: int| 0 <= j < rows.len() - 1 ==> (#[trigger] rows[j]).len() == k
        }),
{
    lemma_wrap_general(s, effective_width(s.len(), width));
}

proof fn lemma_wrap_general(s: Seq<PixelView>, k: nat)
    requires
        k > 0,
    ensures
        wrap(s, k).len() == ceil_div(s.len(), k),
        wrap(s, k).flatten() == s,
        forall|j: int| 0 <= j < wrap(s, k).len() - 1 ==> (#[trigger] wrap(s, k)[j]).len() == k,
        forall|j: int| 0 <= j < wrap(s, k).len() ==> (#[trigger] wrap(s, k)[j]).len() > 0,
    decreases s.len(),
{
    let n = s.len() as int;
    let kk = k as int;
    if n == 0 {
        lemma_fundamental_div_mod_converse(kk - 1, kk, 0, kk - 1);
        assert(wrap(s, k).flatten() =~= s);
    } else if n <= kk {
        lemma_fundamental_div_mod_converse(n + kk - 1, kk, 1, n - 1);
        let rows = wrap(s, k);
        rows.lemma_flatten_one_element();
    } else {
        let rest = s.skip(kk);
        lemma_wrap_general(rest, k);
        lemma_div_plus_one(n - 1, kk);
        assert(kk + (n - 1) == n + kk - 1);
        assert(rest.len() + kk - 1 == n - 1);
        let rows = wrap(s, k);
        assert(rows.drop_first() =~= wrap(rest, k));
        assert(rows.flatten() =~= s.take(kk) + wrap(rest, k).flatten());
        assert(s.take(kk) + rest =~= s);
    }
}

/// The rows of `s` from cell `start` on: the row that starts there, then
/// the rest.
proof fn lemma_wrap_step(s: Seq<PixelView>, k: nat, start: int)
    requires
        k > 0,
        0 <= start < s.len(),
    ensures
        ({
            let end = if start + k <= s.len() {
                start + k
            } else {
                s.len() as int
            };
            wrap(s.skip(start), k) == seq![s.subrange(start, end)] + wrap(s.skip(end), k)
        }),
{
    let t = s.skip(start);
    let end = if start + k <= s.len() {
        start + k
    } else {
        s.len() as int
    };
    if t.len() <= k {
        assert(t =~= s.subrange(start, end));
        assert(s.skip(end).len() == 0);
        assert(wrap(s.skip(end), k) =~= Seq::<Seq<PixelView>>::empty());
        assert(wrap(t, k) =~= seq![s.subrange(start, end)] + wrap(s.skip(end), k));
    } else {
        assert(t.take(k as int) =~= s.subrange(start, end));
        assert(t.skip(k as int) =~= s.skip(end));
    }
}

/// Cuts `pixels` into rows of `k` cells.
fn wrap_rows(pixels: &Vec<Pixel>, k: usize) -> (r: Vec<Vec<Pixel>>)
    requires
        k > 0,
    ensures
        rows_view(r@) == wrap(pixels_view(pixels@), k as nat),
{
    let ghost s = pixels_view(pixels@);
    let n = pixels.len();
    let mut rows: Vec<Vec<Pixel>> = Vec::new();
    let mut start: usize = 0;
    assert(s.skip(0) =~= s);
    while start < n
        invariant
            n == pixels@.len(),
            s == pixels_view(pixels@),
            k > 0,
            start <= n,
            rows_view(rows@) + wrap(s.skip(start as int), k as nat) == wrap(s, k as nat),
        decreases n - start,
    {
        let end = if k <= n - start {
            start + k
        } else {
            n
        };
        let mut row: Vec<Pixel> = Vec::new();
        let mut i: usize = start;
        while i < end
            invariant
                n == pixels@.len(),
                s == pixels_view(pixels@),
                start <= i <= end <= n,
                pixels_view(row@) == s.subrange(start as int, i as int),
            decreases end - i,
        {
            let p = pixels[i].duplicate();
            let ghost before = row@;
            row.push(p);
            assert(p@ == s[i as int]);
            proof {
                lemma_pixels_view_push(before, p);
            }
            assert(pixels_view(row@) =~= s.subrange(start as int, i + 1));
            i = i + 1;
        }
        proof {
            lemma_wrap_step(s, k as nat, start as int);
        }
        let ghost before = rows@;
        rows.push(row);
        assert(rows_view(rows@) =~= rows_view(before) + seq![s.subrange(start as int, end as int)]);
        start = end;
    }
    assert(wrap(s.skip(n as int), k as nat) =~= Seq::<Seq<PixelView>>::empty());
    assert(rows_view(rows@) =~= rows_view(rows@) + wrap(s.skip(n as int), k as nat));
    rows
}

/// Cuts `pixels` into rows at the effective width for `width`.
fn wrap_at(pixels: &Vec<Pixel>, width: usize) -> (r: Vec<Vec<Pixel>>)
    requires
        width > 0 || pixels@.len() == 0,
    ensures
        rows_view(r@) == wrap(
            pixels_view(pixels@),
            effective_width(pixels@.len(), width as nat),
        ),
{
    let n = pixels.len();
    let k = if n <= width {
        n
    } else {
        width
    };
    if k == 0 {
        let r: Vec<Vec<Pixel>> = Vec::new();
        assert(rows_view(r@) =~= Seq::<Seq<PixelView>>::empty());
        r
    } else {
        wrap_rows(pixels, k)
    }
}

/// A text run: its cells, the wrap width asked for, the rows it was cut
/// into, and its anchor.
pub struct Text {
    grid: Vec<Vec<Pixel>>,
    width: usize,
    pixels: Vec<Pixel>,
    x: u16,
    y: u16,
}

impl Text {
    /// The column of the anchor.
    pub closed spec fn pos_x(&self) -> u16 {
        self.x
    }

    /// The row of the anchor.
    pub closed spec fn pos_y(&self) -> u16 {
        self.y
    }

    /// The cells, in order.
    pub closed spec fn content(&self) -> Seq<PixelView> {
        pixels_view(self.pixels@)
    }

    /// The wrap width asked for.
    pub closed spec fn wrap_width(&self) -> nat {
        self.width as nat
    }

    /// The rows as they are drawn.
    pub closed spec fn rows(&self) -> Seq<Seq<PixelView>> {
        rows_view(self.grid@)
    }

    /// The rows are always the cells cut at the effective width.
    #[verifier::type_invariant]
    pub open spec fn wf(&self) -> bool {
        self.rows() == wrap(self.content(), effective_width(self.content().len(), self.wrap_width()))
    }

    /// An empty text at the origin, with no wrap width yet.
    pub fn new() -> (r: Text)
        ensures
            r.wf(),
            r.content().len() == 0,
            r.wrap_width() == 0,
            r.rows().len() == 0,
            r.pos_x() == 0,
            r.pos_y() == 0,
    {
        let grid: Vec<Vec<Pixel>> = Vec::new();
        let pixels: Vec<Pixel> = Vec::new();
        assert(rows_view(grid@) =~= wrap(pixels_view(pixels@), 0));
        Text { grid, width: 0, pixels, x: 0, y: 0 }
    }

    /// Settings for a new text, at the origin and with no cells.
    pub fn builder() -> (r: TextBuilder)
        ensures
            r.x == 0,
            r.y == 0,
            r.pixels@.len() == 0,
    {
        TextBuilder::new()
    }

    /// Replaces the cells and wraps them at the current width. With no
    /// wrap width set, only an empty content can be taken.
    pub fn update(&mut self, pixels: Vec<Pixel>) -> (r: Result<(), TextError>)
        ensures
            final(self).wf(),
            r.is_err() == (old(self).wrap_width() == 0 && pixels@.len() > 0),
            r.is_err() ==> r == Err::<(), TextError>(TextError::DegenerateWrapWidth) && *final(self)
                == *old(self),
            r.is_ok() ==> final(self).content() == pixels_view(pixels@),
            final(self).wrap_width() == old(self).wrap_width(),
            final(self).pos_x() == old(self).pos_x(),
            final(self).pos_y() == old(self).pos_y(),
    {
        proof {
            use_type_invariant(&*self);
        }
        if self.width == 0 && pixels.len() > 0 {
            return Err(TextError::DegenerateWrapWidth);
        }
        let grid = wrap_at(&pixels, self.width);
        *self = Text { grid, width: self.width, pixels, x: self.x, y: self.y };
        Ok(())
    }

    /// The rows as they are drawn.
    pub fn view(&self) -> (r: &Vec<Vec<Pixel>>)
        ensures
            rows_view(r@) == self.rows(),
    {
        &self.grid
    }

    /// Moves the anchor; the rows stay as they are.
    pub fn move_to(&mut self, x: u16, y: u16)
        ensures
            final(self).pos_x() == x,
            final(self).pos_y() == y,
            final(self).content() == old(self).content(),
            final(self).wrap_width() == old(self).wrap_width(),
            final(self).rows() == old(self).rows(),
    {
        proof {
            use_type_invariant(&*self);
        }
        self.x = x;
        self.y = y;
    }

    /// Wraps the cells again at `width` and returns the effective width.
    pub fn resize(&mut self, width: usize) -> (r: Result<usize, TextError>)
        ensures
            width == 0 ==> r == Err::<usize, TextError>(TextError::DegenerateWrapWidth) && *final(self)
                == *old(self),
            width > 0 ==> r == Ok::<usize, TextError>(
                effective_width(old(self).content().len(), width as nat) as usize,
            ),
            width > 0 ==> final(self).wf() && final(self).wrap_width() == width,
            final(self).content() == old(self).content(),
            final(self).pos_x() == old(self).pos_x(),
            final(self).pos_y() == old(self).pos_y(),
    {
        proof {
            use_type_invariant(&*self);
        }
        if width == 0 {
            return Err(TextError::DegenerateWrapWidth);
        }
        let mut taken = Text::new();
        std::mem::swap(&mut taken, self);
        let Text { grid: _, width: _, pixels, x, y } = taken;
        let n = pixels.len();
        let grid = wrap_at(&pixels, width);
        *self = Text { grid, width, pixels, x, y };
        if n <= width {
            Ok(n)
        } else {
            Ok(width)
        }
    }

    /// The characters of the cells, in order, without styles: the rows
    /// read one after another.
    pub fn to_string(&self) -> (r: String)
        ensures
            r@ == symbols_of(self.content()),
    {
        let mut out = String::new();
        let mut i: usize = 0;
        while i < self.pixels.len()
            invariant
                i <= self.pixels@.len(),
                out@ == symbols_of(self.content()).take(i as int),
            decreases self.pixels@.len() - i,
        {
            push_char(&mut out, self.pixels[i].symbol);
            assert(out@ =~= symbols_of(self.content()).take(i + 1));
            i = i + 1;
        }
        assert(symbols_of(self.content()).take(i as int) =~= symbols_of(self.content()));
        out
    }

    /// A copy with the same cells, rows and anchor.
    pub fn duplicate(&self) -> (r: Text)
        ensures
            r.content() == self.content(),
            r.rows() == self.rows(),
            r.wrap_width() == self.wrap_width(),
            r.pos_x() == self.pos_x(),
            r.pos_y() == self.pos_y(),
    {
        proof {
            use_type_invariant(self);
        }
        let mut grid: Vec<Vec<Pixel>> = Vec::new();
        let mut j: usize = 0;
        while j < self.grid.len()
            invariant
                j <= self.grid@.len(),
                rows_view(grid@) == self.rows().take(j as int),
            decreases self.grid@.len() - j,
        {
            let row = copy_pixels(&self.grid[j]);
            assert(pixels_view(row@) == self.rows()[j as int]);
            let ghost before = grid@;
            grid.push(row);
            proof {
                lemma_rows_view_push(before, row);
            }
            assert(rows_view(grid@) =~= self.rows().take(j + 1));
            j = j + 1;
        }
        assert(self.rows().take(self.grid@.len() as int) =~= self.rows());
        Text { grid, width: self.width, pixels: copy_pixels(&self.pixels), x: self.x, y: self.y }
    }

    /// Whether the two texts hold the same cells, rows, width and anchor.
    pub fn same(&self, other: &Text) -> (r: bool)
        ensures
            r == (self.content() == other.content() && self.rows() == other.rows()
                && self.wrap_width() == other.wrap_width() && self.pos_x() == other.pos_x() && self.pos_y()
                == other.pos_y()),
    {
        if self.width != other.width || self.x != other.x || self.y != other.y {
            return false;
        }
        if !same_pixels(&self.pixels, &other.pixels) {
            return false;
        }
        if self.grid.len() != other.grid.len() {
            assert(self.rows().len() != other.rows().len());
            return false;
        }
        let mut j: usize = 0;
        while j < self.grid.len()
            invariant
                j <= self.grid@.len(),
                self.grid@.len() == other.grid@.len(),
                self.rows().take(j as int) == other.rows().take(j as int),
            decreases self.grid@.len() - j,
        {
            if !same_pixels(&self.grid[j], &other.grid[j]) {
                assert(self.rows()[j as int] != other.rows()[j as int]);
                return false;
            }
            assert(self.rows().take(j + 1) =~= other.rows().take(j + 1));
            j = j + 1;
        }
        assert(self.rows() =~= self.rows().take(j as int));
        assert(other.rows() =~= other.rows().take(j as int));
        true
    }
}

impl Viewable for Text {
    /// The wrap width asked for.
    open spec fn shown_width(&self) -> int {
        self.wrap_width() as int
    }

    /// The number of rows.
    open spec fn shown_height(&self) -> int {
        self.rows().len() as int
    }

    open spec fn anchor(&self) -> (int, int) {
        (self.pos_x() as int, self.pos_y() as int)
    }

    fn width(&self) -> (r: usize) {
        self.width
    }

    fn height(&self) -> (r: usize) {
        self.grid.len()
    }

    fn position(&self) -> (r: (usize, usize)) {
        (self.x as usize, self.y as usize)
    }
}

/// A copy of each cell.
pub(crate) fn copy_pixels(v: &Vec<Pixel>) -> (r: Vec<Pixel>)
    ensures
        pixels_view(r@) == pixels_view(v@),
{
    let mut out: Vec<Pixel> = Vec::new();
    let mut i: usize = 0;
    while i < v.len()
        invariant
            i <= v@.len(),
            pixels_view(out@) == pixels_view(v@).take(i as int),
        decreases v@.len() - i,
    {
        let p = v[i].duplicate();
        assert(p@ == pixels_view(v@)[i as int]);
        let ghost before = out@;
        out.push(p);
        proof {
            lemma_pixels_view_push(before, p);
        }
        assert(pixels_view(out@) =~= pixels_view(v@).take(i + 1));
        i = i + 1;
    }
    assert(pixels_view(v@).take(i as int) =~= pixels_view(v@));
    out
}

/// Whether the two vectors hold the same cells.
pub(crate) fn same_pixels(a: &Vec<Pixel>, b: &Vec<Pixel>) -> (r: bool)
    ensures
        r == (pixels_view(a@) == pixels_view(b@)),
{
    if a.len() != b.len() {
        assert(pixels_view(a@).len() != pixels_view(b@).len());
        return false;
    }
    let mut i: usize = 0;
    while i < a.len()
        invariant
            i <= a@.len(),
            a@.len() == b@.len(),
            pixels_view(a@).take(i as int) == pixels_view(b@).take(i as int),
        decreases a@.len() - i,
    {
        if !a[i].same(&b[i]) {
            assert(pixels_view(a@)[i as int] != pixels_view(b@)[i as int]);
            return false;
        }
        assert(pixels_view(a@).take(i + 1) =~= pixels_view(b@).take(i + 1));
        i = i + 1;
    }
    assert(pixels_view(a@) =~= pixels_view(a@).take(i as int));
    assert(pixels_view(b@) =~= pixels_view(b@).take(i as int));
    true
}

/// The settings of a text before it is wrapped.
pub struct TextBuilder {
    pub x: u16,
    pub y: u16,
    pub pixels: Vec<Pixel>,
}

impl TextBuilder {
    /// Settings at the origin, with no cells.
    pub fn new() -> (r: TextBuilder)
        ensures
            r.x == 0,
            r.y == 0,
            r.pixels@.len() == 0,
    {
        TextBuilder { x: 0, y: 0, pixels: Vec::new() }
    }

    /// The anchor of the text in its parent's writable region.
    pub fn position(self, x: u16, y: u16) -> (r: TextBuilder)
        ensures
            r.x == x,
            r.y == y,
            r.pixels == self.pixels,
    {
        TextBuilder { x, y, pixels: self.pixels }
    }

    /// The cells of the text.
    pub fn text(self, pixels: Vec<Pixel>) -> (r: TextBuilder)
        ensures
            r.x == self.x,
            r.y == self.y,
            r.pixels == pixels,
    {
        TextBuilder { x: self.x, y: self.y, pixels }
    }

    /// The text, wrapped at `width`; a width of zero is refused.
    pub fn build(self, width: usize) -> (r: Result<Text, TextError>)
        ensures
            width == 0 <==> r is Err,
            r is Err ==> r == Err::<Text, TextError>(TextError::DegenerateWrapWidth),
            r matches Ok(t) ==> {
                &&& t.wf()
                &&& t.content() == pixels_view(self.pixels@)
                &&& t.wrap_width() == width
                &&& t.pos_x() == self.x
                &&& t.pos_y() == self.y
            },
    {
        if width == 0 {
            return Err(TextError::DegenerateWrapWidth);
        }
        let grid = wrap_at(&self.pixels, width);
        Ok(Text { grid, width, pixels: self.pixels, x: self.x, y: self.y })
    }
}

} // verus!
