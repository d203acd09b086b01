//! What a parent needs to know of an item it lays out.

use vstd::prelude::*;

verus! {

/// An item with an extent and an anchor.
pub trait Viewable {
    /// The width the item shows, in cells.
    spec fn shown_width(&self) -> int;

    /// The height the item shows, in cells.
    spec fn shown_height(&self) -> int;

    /// The column and row of the item's anchor.
    spec fn anchor(&self) -> (int, int);

    fn width(&self) -> (r: usize)
        ensures
            r == self.shown_width(),
    ;

    fn height(&self) -> (r: usize)
        ensures
            r == self.shown_height(),
    ;

    fn position(&self) -> (r: (usize, usize))
        ensures
            r.0 == self.anchor().0,
            r.1 == self.anchor().1,
    ;
}

} // verus!
