//! Rectangles given by their four edges.

use vstd::prelude::*;

verus! {

/// Why a rectangle could not be made from a list of points.
#[derive(Debug, PartialEq, Eq, Structural, Clone, Copy)]
pub enum RectError {
    /// The list held neither one, two nor four values.
    BadPointCount,
}

/// A rectangle by its edges.
#[derive(Debug, PartialEq, Eq, Structural, Clone, Copy)]
pub struct Rect {
    pub left: usize,
    pub top: usize,
    pub right: usize,
    pub bottom: usize,
}

impl Rect {
    /// The empty rectangle at the origin.
    pub fn new() -> (r: Rect)
        ensures
            r == (Rect { left: 0, top: 0, right: 0, bottom: 0 }),
    {
        Rect { left: 0, top: 0, right: 0, bottom: 0 }
    }

    /// A rectangle from one value (every edge), two (width and height, from
    /// the origin) or four (left, top, right, bottom).
    pub fn from_points(points: &Vec<usize>) -> (r: Result<Rect, RectError>)
        ensures
            points@.len() == 1 ==> r == Ok::<Rect, RectError>(
                Rect { left: points@[0], top: points@[0], right: points@[0], bottom: points@[0] },
            ),
            points@.len() == 2 ==> r == Ok::<Rect, RectError>(
                Rect { left: 0, top: 0, right: points@[0], bottom: points@[1] },
            ),
            points@.len() == 4 ==> r == Ok::<Rect, RectError>(
                Rect { left: points@[0], top: points@[1], right: points@[2], bottom: points@[3] },
            ),
            points@.len() != 1 && points@.len() != 2 && points@.len() != 4 ==> r == Err::<
                Rect,
                RectError,
            >(RectError::BadPointCount),
    {
        let n = points.len();
        if n == 1 {
            let v = points[0];
            Ok(Rect { left: v, top: v, right: v, bottom: v })
        } else if n == 2 {
            Ok(Rect { left: 0, top: 0, right: points[0], bottom: points[1] })
        } else if n == 4 {
            Ok(Rect { left: points[0], top: points[1], right: points[2], bottom: points[3] })
        } else {
            Err(RectError::BadPointCount)
        }
    }

    /// Pulls every edge inside a `width × height` area.
    pub fn clamp(&mut self, width: usize, height: usize)
        ensures
            final(self).left == if old(self).left < width {
                old(self).left
            } else {
                width
            },
            final(self).right == if old(self).right < width {
                old(self).right
            } else {
                width
            },
            final(self).top == if old(self).top < height {
                old(self).top
            } else {
                height
            },
            final(self).bottom == if old(self).bottom < height {
                old(self).bottom
            } else {
                height
            },
    {
        if self.left > width {
            self.left = width;
        }
        if self.right > width {
            self.right = width;
        }
        if self.top > height {
            self.top = height;
        }
        if self.bottom > height {
            self.bottom = height;
        }
    }

    /// The distance from the left to the right edge.
    pub fn width(&self) -> (r: usize)
        requires
            self.left <= self.right,
        ensures
            r == self.right - self.left,
    {
        self.right - self.left
    }

    /// The distance from the top to the bottom edge.
    pub fn height(&self) -> (r: usize)
        requires
            self.top <= self.bottom,
        ensures
            r == self.bottom - self.top,
    {
        self.bottom - self.top
    }
}

} // verus!
