//! Pixel-space geometry: cursor positions and the rectangles spanned by a drag.

use vstd::prelude::*;

verus! {

/// A position in the pixel buffer; `x` counts columns from the left edge and
/// `y` counts rows from the top edge.
#[derive(Clone, Copy, Debug, PartialEq, Eq, Structural)]
pub struct Pixel {
    pub x: usize,
    pub y: usize,
}

/// An axis-aligned rectangle in pixel space, given by its extreme columns and
/// rows.
#[derive(Clone, Copy, Debug, PartialEq, Eq, Structural)]
pub struct PixelRect {
    pub x_min: usize,
    pub x_max: usize,
    pub y_min: usize,
    pub y_max: usize,
}

/// The smaller of two coordinates.
pub open spec fn spec_min(a: usize, b: usize) -> usize {
    if a < b { a } else { b }
}

/// The larger of two coordinates.
pub open spec fn spec_max(a: usize, b: usize) -> usize {
    if a > b { a } else { b }
}

impl PixelRect {
    /// The lower bound of each axis does not exceed its upper bound.
    pub open spec fn well_formed(self) -> bool {
        self.x_min <= self.x_max && self.y_min <= self.y_max
    }

    /// The rectangle has no width or no height.
    pub open spec fn spec_is_degenerate(self) -> bool {
        self.x_min == self.x_max || self.y_min == self.y_max
    }

    /// The rectangle whose opposite corners are `a` and `b`, whichever way
    /// round they are given.
    pub open spec fn spec_spanning(a: Pixel, b: Pixel) -> PixelRect {
        PixelRect {
            x_min: spec_min(a.x, b.x),
            x_max: spec_max(a.x, b.x),
            y_min: spec_min(a.y, b.y),
            y_max: spec_max(a.y, b.y),
        }
    }

    /// Whether the pixel in column `x`, row `y` lies on the outline: it lies
    /// within the rectangle, bounds included, and on its first or last
    /// column or on its first or last row. All four corners belong to it.
    pub open spec fn on_outline(self, x: int, y: int) -> bool {
        &&& self.x_min <= x <= self.x_max
        &&& self.y_min <= y <= self.y_max
        &&& (x == self.x_min || x == self.x_max || y == self.y_min || y == self.y_max)
    }

    /// Builds the normalized rectangle spanned by two corners: on each axis
    /// independently the smaller coordinate becomes the lower bound.
    pub fn spanning(a: Pixel, b: Pixel) -> (rect: PixelRect)
        ensures
            rect == Self::spec_spanning(a, b),
            rect.well_formed(),
    {
        PixelRect {
            x_min: if a.x < b.x { a.x } else { b.x },
            x_max: if a.x > b.x { a.x } else { b.x },
            y_min: if a.y < b.y { a.y } else { b.y },
            y_max: if a.y > b.y { a.y } else { b.y },
        }
    }

    /// Tells whether the rectangle has zero width or zero height.
    pub fn is_degenerate(&self) -> (degenerate: bool)
        ensures
            degenerate == self.spec_is_degenerate(),
    {
        self.x_min == self.x_max || self.y_min == self.y_max
    }
}

/// Normalization does not depend on the direction of the drag: swapping the
/// two corners gives the same rectangle.
pub proof fn lemma_spanning_symmetric(a: Pixel, b: Pixel)
    ensures
        PixelRect::spec_spanning(a, b) == PixelRect::spec_spanning(b, a),
{
}

/// A normalized rectangle that is not degenerate has strictly ordered bounds
/// on both axes.
pub proof fn lemma_spanning_strict(a: Pixel, b: Pixel)
    requires
        !PixelRect::spec_spanning(a, b).spec_is_degenerate(),
    ensures
        PixelRect::spec_spanning(a, b).x_min < PixelRect::spec_spanning(a, b).x_max,
        PixelRect::spec_spanning(a, b).y_min < PixelRect::spec_spanning(a, b).y_max,
{
}

} // verus!
