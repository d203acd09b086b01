//! One render pass over a canvas, and the frame it produces.

use vstd::prelude::*;
use crate::ansi::{decimal, point};
use crate::buffer::rendered;
use crate::canvas::{Canvas, composed};
use crate::viewable::Viewable;

verus! {

/// Draws the canvas's children into its writable region.
pub fn render(canvas: &mut Canvas)
    ensures
        final(canvas).cells() == composed(
            old(canvas).cells(),
            old(canvas).spec_width(),
            old(canvas).spec_height(),
            old(canvas).has_border(),
            old(canvas).kids(),
        ),
        final(canvas).spec_width() == old(canvas).spec_width(),
        final(canvas).spec_height() == old(canvas).spec_height(),
        final(canvas).has_border() == old(canvas).has_border(),
        final(canvas).border_style() == old(canvas).border_style(),
        final(canvas).kids() == old(canvas).kids(),
        final(canvas).pos_x() == old(canvas).pos_x(),
        final(canvas).pos_y() == old(canvas).pos_y(),
{
    canvas.render();
}

/// A full repaint: renders the canvas, then returns the sequence that moves
/// the cursor to the canvas's anchor followed by its whole grid as text.
pub fn frame(canvas: &mut Canvas) -> (r: String)
    ensures
        final(canvas).cells() == composed(
            old(canvas).cells(),
            old(canvas).spec_width(),
            old(canvas).spec_height(),
            old(canvas).has_border(),
            old(canvas).kids(),
        ),
        r@ == "\x1b["@ + decimal(old(canvas).pos_y() as nat) + ";"@ + decimal(
            old(canvas).pos_x() as nat,
        ) + "H"@ + rendered(
            final(canvas).cells(),
            final(canvas).spec_width() as nat,
            final(canvas).cells().len(),
        ),
        final(canvas).spec_width() == old(canvas).spec_width(),
        final(canvas).spec_height() == old(canvas).spec_height(),
        final(canvas).has_border() == old(canvas).has_border(),
        final(canvas).border_style() == old(canvas).border_style(),
        final(canvas).kids() == old(canvas).kids(),
        final(canvas).pos_x() == old(canvas).pos_x(),
        final(canvas).pos_y() == old(canvas).pos_y(),
{
    canvas.render();
    let (x, y) = canvas.position();
    let mut out = point(x as u32, y as u32);
    let body = canvas.to_string();
    out.append(body.as_str());
    out
}

} // verus!
